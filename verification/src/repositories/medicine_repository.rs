//! The repository of medicines.

use crate::ident::is_random_uuid_text;
use crate::models::medicine::{ApiMedicine, Medicine, MedicineView};
use crate::repositories::connection::{client_of, open_client, redis_url_accepted, ConnectionError};
use crate::store::{
    is_list_step, is_read_step, is_remove_step, key_of, list_step, read_step, record_key, refusal,
    refusal_of, remove_step, write_step, Creation, Fetched, Step, StoreCommand, StoreError,
    StoreReply,
};
use vstd::prelude::*;
use vstd::std_specs::ops::AddSpec;

verus! {

/// The medicines of one namespace of the store.
pub struct MedicineRepository {
    pub redis_client: redis::Client,
    pub prefix: String,
}

/// `step` is the step of updating the medicine `id` to the values of `api`
/// after `reply`: at first the command to write the medicine with these
/// values and this identifier at its key, whether or not it exists; then
/// `true`, or the error of a command that failed.
pub open spec fn is_medicine_update_step<N>(
    prefix: Seq<char>,
    id: Seq<char>,
    api: ApiMedicine<N>,
    reply: Option<StoreReply<Medicine<N>>>,
    step: Step<Medicine<N>, bool>,
) -> bool {
    match reply {
        None => step matches Step::Send(StoreCommand::Write { key, record }) && key@ == key_of(
            prefix,
            id,
        ) && record@ == (MedicineView {
            id,
            name: api.name@,
            dose: api.dose,
            unit: api.unit@,
            stock: api.stock,
        }),
        Some(StoreReply::Done) => step == Step::<Medicine<N>, bool>::Finish(Ok(true)),
        Some(other) => step == Step::<Medicine<N>, bool>::Finish(Err(refusal_of(other))),
    }
}

/// `step` is the step of adding `amount` to the stock of the medicine `id`
/// after `reply`: at first the command to read it; after the medicine, the
/// command to write it back at the same key with `amount` added to its stock
/// and nothing else changed; `false` where there is no such medicine; `true`
/// after the write; an error where the stored value is undecodable or a
/// command failed.
pub open spec fn is_add_stock_step<N: core::ops::Add<Output = N>>(
    prefix: Seq<char>,
    id: Seq<char>,
    amount: N,
    reply: Option<StoreReply<Medicine<N>>>,
    step: Step<Medicine<N>, bool>,
) -> bool {
    match reply {
        None => step matches Step::Send(StoreCommand::Read { key }) && key@ == key_of(prefix, id),
        Some(StoreReply::Value(Fetched::Record(m))) => {
            &&& step matches Step::Send(StoreCommand::Write { key, record })
            &&& key@ == key_of(prefix, id)
            &&& record.id == m.id
            &&& record.name == m.name
            &&& record.dose == m.dose
            &&& record.unit == m.unit
            &&& N::obeys_add_spec() ==> record.stock == m.stock.add_spec(amount)
        },
        Some(StoreReply::Value(Fetched::Absent)) => step == Step::<Medicine<N>, bool>::Finish(
            Ok(false),
        ),
        Some(StoreReply::Value(Fetched::Undecodable)) => step == Step::<Medicine<N>, bool>::Finish(
            Err(StoreError::Decode),
        ),
        Some(StoreReply::Done) => step == Step::<Medicine<N>, bool>::Finish(Ok(true)),
        Some(other) => step == Step::<Medicine<N>, bool>::Finish(Err(refusal_of(other))),
    }
}

/// `c` is the creation of a medicine with the values of `api` in the namespace
/// `prefix`: under a fresh identifier, and with the command that writes the
/// medicine with these values and this identifier at its key.
pub open spec fn is_medicine_creation<N>(
    prefix: Seq<char>,
    api: ApiMedicine<N>,
    c: Creation<Medicine<N>>,
) -> bool {
    &&& is_random_uuid_text(c.id@)
    &&& c.command matches StoreCommand::Write { key, record }
    &&& key@ == key_of(prefix, c.id@)
    &&& record@ == (MedicineView {
        id: c.id@,
        name: api.name@,
        dose: api.dose,
        unit: api.unit@,
        stock: api.stock,
    })
}

impl MedicineRepository {
    /// The repository of the namespace `prefix` in the store at `redis_url`,
    /// if the redis crate takes the address. Nothing is connected yet.
    pub fn new(redis_url: &str, prefix: String) -> (r: Result<Self, ConnectionError>)
        ensures
            r is Ok == redis_url_accepted(redis_url@),
            r matches Ok(repo) ==> repo.prefix == prefix,
            r matches Err(e) ==> e == ConnectionError::InvalidUrl,
    {
        Self::with_client(open_client(redis_url), prefix)
    }

    /// The repository of the namespace `prefix` behind the client that
    /// `opened` holds, or the error where it holds none.
    pub fn with_client(opened: Result<redis::Client, redis::RedisError>, prefix: String) -> (r:
        Result<Self, ConnectionError>)
        ensures
            r is Ok == opened is Ok,
            r matches Ok(repo) ==> repo.prefix == prefix && opened == Ok::<
                redis::Client,
                redis::RedisError,
            >(repo.redis_client),
            r matches Err(e) ==> e == ConnectionError::InvalidUrl,
    {
        match client_of(opened) {
            Ok(client) => Ok(MedicineRepository { redis_client: client, prefix }),
            Err(e) => Err(e),
        }
    }

    /// Begins the creation of a medicine with the values of `api`: gives it a
    /// fresh identifier and the command that writes it at its key.
    pub fn create<N: Copy>(&self, api: ApiMedicine<N>) -> (c: Creation<Medicine<N>>)
        ensures
            is_medicine_creation(self.prefix@, api, c),
    {
        let medicine = api.to_medicine();
        let id = medicine.id.clone();
        Creation::new(self.prefix.as_str(), id, medicine)
    }

    /// One step of listing all medicines, by ascending name.
    pub fn get_all<N>(&self, reply: Option<StoreReply<Medicine<N>>>) -> (step: Step<
        Medicine<N>,
        Vec<Medicine<N>>,
    >)
        ensures
            is_list_step(self.prefix@, reply, step),
    {
        list_step(self.prefix.as_str(), reply)
    }

    /// One step of reading the medicine `id`.
    pub fn get_by_id<N>(&self, id: &str, reply: Option<StoreReply<Medicine<N>>>) -> (step: Step<
        Medicine<N>,
        Option<Medicine<N>>,
    >)
        ensures
            is_read_step(self.prefix@, id@, reply, step),
    {
        read_step(self.prefix.as_str(), id, reply)
    }

    /// One step of updating the medicine `id` to the values of `api`.
    pub fn update<N: Copy>(
        &self,
        id: &str,
        api: ApiMedicine<N>,
        reply: Option<StoreReply<Medicine<N>>>,
    ) -> (step: Step<Medicine<N>, bool>)
        ensures
            is_medicine_update_step(self.prefix@, id@, api, reply, step),
    {
        let medicine = api.to_medicine_with_id(String::from_str(id));
        write_step(self.prefix.as_str(), id, medicine, reply)
    }

    /// One step of deleting the medicine `id`.
    pub fn delete<N>(&self, id: &str, reply: Option<StoreReply<Medicine<N>>>) -> (step: Step<
        Medicine<N>,
        (),
    >)
        ensures
            is_remove_step(self.prefix@, id@, reply, step),
    {
        remove_step(self.prefix.as_str(), id, reply)
    }

    /// One step of adding `amount` to the stock of the medicine `id`.
    ///
    /// Where `reply` brings the medicine, the sum of its stock and `amount`
    /// must be one that `N` can form.
    pub fn add_stock<N: Copy + core::ops::Add<Output = N>>(
        &self,
        id: &str,
        amount: N,
        reply: Option<StoreReply<Medicine<N>>>,
    ) -> (step: Step<Medicine<N>, bool>)
        requires
            reply matches Some(StoreReply::Value(Fetched::Record(m))) ==> m.stock.add_req(amount),
        ensures
            is_add_stock_step(self.prefix@, id@, amount, reply, step),
    {
        match reply {
            None => Step::Send(StoreCommand::Read { key: record_key(self.prefix.as_str(), id) }),
            Some(StoreReply::Value(Fetched::Record(medicine))) => {
                let updated = medicine.add_stock(amount);
                Step::Send(
                    StoreCommand::Write {
                        key: record_key(self.prefix.as_str(), id),
                        record: updated,
                    },
                )
            },
            Some(StoreReply::Value(Fetched::Absent)) => Step::Finish(Ok(false)),
            Some(StoreReply::Value(Fetched::Undecodable)) => Step::Finish(Err(StoreError::Decode)),
            Some(StoreReply::Done) => Step::Finish(Ok(true)),
            Some(other) => Step::Finish(Err(refusal(&other))),
        }
    }
}

} // verus!
