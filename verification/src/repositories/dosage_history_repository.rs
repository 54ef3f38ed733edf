//! The repository of doses taken.

use crate::ident::{is_random_uuid_text, new_random_id};
use crate::models::dosage_history::{
    rfc3339_accepted, timestamp_text, ApiDosageHistory, DosageHistory, DosageHistoryError,
    DosageHistoryView,
};
use crate::repositories::connection::{client_of, open_client, redis_url_accepted, ConnectionError};
use crate::store::{
    is_list_step, is_read_step, is_remove_step, key_of, list_step, read_step, remove_step,
    Creation, Step, StoreCommand, StoreReply,
};
use vstd::prelude::*;

verus! {

/// The doses of one namespace of the store.
pub struct DosageHistoryRepository {
    pub redis_client: redis::Client,
    pub prefix: String,
}

impl DosageHistoryRepository {
    /// The repository of the namespace `prefix` in the store at `redis_url`,
    /// if the redis crate takes the address. Nothing is connected yet.
    pub fn new(redis_url: &str, prefix: String) -> (r: Result<Self, ConnectionError>)
        ensures
            r is Ok == redis_url_accepted(redis_url@),
            r matches Ok(repo) ==> repo.prefix == prefix,
            r matches Err(e) ==> e == ConnectionError::InvalidUrl,
    {
        Self::with_client(open_client(redis_url), prefix)
    }

    /// The repository of the namespace `prefix` behind the client that
    /// `opened` holds, or the error where it holds none.
    pub fn with_client(opened: Result<redis::Client, redis::RedisError>, prefix: String) -> (r:
        Result<Self, ConnectionError>)
        ensures
            r is Ok == opened is Ok,
            r matches Ok(repo) ==> repo.prefix == prefix && opened == Ok::<
                redis::Client,
                redis::RedisError,
            >(repo.redis_client),
            r matches Err(e) ==> e == ConnectionError::InvalidUrl,
    {
        match client_of(opened) {
            Ok(client) => Ok(DosageHistoryRepository { redis_client: client, prefix }),
            Err(e) => Err(e),
        }
    }

    /// Begins the creation of a dose with the values of `api`, if its date and
    /// time make a date-time: gives it a fresh identifier, no description, and
    /// the command that writes it at its key.
    pub fn create<N: Copy>(&self, api: ApiDosageHistory<N>) -> (r: Result<
        Creation<DosageHistory<N>>,
        DosageHistoryError,
    >)
        ensures
            r is Ok == rfc3339_accepted(timestamp_text(api.date@, api.time@)),
            r matches Ok(c) ==> {
                &&& is_random_uuid_text(c.id@)
                &&& c.command matches StoreCommand::Write { key, record }
                &&& key@ == key_of(self.prefix@, c.id@)
                &&& record@ == (DosageHistoryView {
                    id: c.id@,
                    date: api.date@,
                    time: api.time@,
                    medicine_id: api.medicine_id@,
                    description: Seq::empty(),
                    amount: api.amount,
                })
            },
            r matches Err(e) ==> e == DosageHistoryError::InvalidDateTime,
    {
        match api.to_dosage_history(new_random_id(), String::new()) {
            Ok(history) => {
                let id = history.id.clone();
                Ok(Creation::new(self.prefix.as_str(), id, history))
            },
            Err(e) => Err(e),
        }
    }

    /// One step of listing all doses, most recent first.
    pub fn get_all<N>(&self, reply: Option<StoreReply<DosageHistory<N>>>) -> (step: Step<
        DosageHistory<N>,
        Vec<DosageHistory<N>>,
    >)
        ensures
            is_list_step(self.prefix@, reply, step),
    {
        list_step(self.prefix.as_str(), reply)
    }

    /// One step of reading the dose `id`.
    pub fn get_by_id<N>(&self, id: &str, reply: Option<StoreReply<DosageHistory<N>>>) -> (step:
        Step<DosageHistory<N>, Option<DosageHistory<N>>>)
        ensures
            is_read_step(self.prefix@, id@, reply, step),
    {
        read_step(self.prefix.as_str(), id, reply)
    }

    /// One step of deleting the dose `id`.
    pub fn delete<N>(&self, id: &str, reply: Option<StoreReply<DosageHistory<N>>>) -> (step: Step<
        DosageHistory<N>,
        (),
    >)
        ensures
            is_remove_step(self.prefix@, id@, reply, step),
    {
        remove_step(self.prefix.as_str(), id, reply)
    }
}

} // verus!
