//! The repository of schedule entries, and the daily view that joins them
//! with the medicines they name.

use crate::aggregation::{build_daily_schedule, is_daily_view};
use crate::ident::is_random_uuid_text;
use crate::models::medicine::Medicine;
use crate::models::schedule::{
    ApiMedicineSchedule, DailySchedule, DailyScheduleWithDate, MedicineSchedule,
    MedicineScheduleView,
};
use crate::order::is_stable_sort_of;
use crate::repositories::connection::{client_of, open_client, redis_url_accepted, ConnectionError};
use crate::repositories::medicine_repository::MedicineRepository;
use crate::store::{
    is_list_step, is_read_step, is_remove_step, key_of, list_step, read_step, records_of,
    refusal_of, remove_step, scan_pattern_of, write_step, Creation, Fetched, Step, StoreCommand,
    StoreError, StoreReply,
};
use vstd::prelude::*;

verus! {

/// The schedule entries of one namespace of the store.
pub struct MedicineScheduleRepository {
    pub redis_client: redis::Client,
    pub prefix: String,
}

/// `step` is the step of updating the entry `id` to the values of `api` after
/// `reply`: at first the command to write the entry with these values and
/// this identifier at its key, whether or not it exists; then `true`, or the
/// error of a command that failed.
pub open spec fn is_schedule_update_step<N>(
    prefix: Seq<char>,
    id: Seq<char>,
    api: ApiMedicineSchedule<N>,
    reply: Option<StoreReply<MedicineSchedule<N>>>,
    step: Step<MedicineSchedule<N>, bool>,
) -> bool {
    match reply {
        None => step matches Step::Send(StoreCommand::Write { key, record }) && key@ == key_of(
            prefix,
            id,
        ) && record@ == (MedicineScheduleView {
            id,
            time: api.time@,
            medicine_id: api.medicine_id@,
            description: Seq::empty(),
            amount: api.amount,
        }),
        Some(StoreReply::Done) => step == Step::<MedicineSchedule<N>, bool>::Finish(Ok(true)),
        Some(other) => step == Step::<MedicineSchedule<N>, bool>::Finish(Err(refusal_of(other))),
    }
}

/// How far the making of a daily view has come.
#[derive(Debug, PartialEq)]
pub enum DailyProgress<N> {
    /// The schedule entries are being listed.
    Listing,
    /// The entries are listed, and the medicines of the first
    /// `medicines.len()` of them are found; the next one is being read.
    Resolving { schedules: Vec<MedicineSchedule<N>>, medicines: Vec<Option<Medicine<N>>> },
    /// The view is made, or its making has failed.
    Finished,
}

/// What the store said last while a daily view is made.
#[derive(Debug, PartialEq)]
pub enum DailyEvent<N> {
    /// Nothing yet: the making begins.
    Begin,
    /// The reply to a command on the schedule entries.
    Schedules(StoreReply<MedicineSchedule<N>>),
    /// The reply to a command on the medicines.
    Medicine(StoreReply<Medicine<N>>),
}

/// What the making of a daily view asks of its caller next. `R` is the form
/// of the finished view.
#[derive(Debug, PartialEq)]
pub enum DailyAction<N, R> {
    /// Carry out this command on the schedule entries and hand back the reply.
    AskSchedules(StoreCommand<MedicineSchedule<N>>),
    /// Carry out this command on the medicines and hand back the reply.
    AskMedicine(StoreCommand<Medicine<N>>),
    /// The making is over, with this result.
    Finish(Result<R, StoreError>),
}

/// The view `days` as the result `result` presents it: the view itself, or
/// the view under a date.
pub trait DailyResult<N>: Sized {
    /// `self` presents `days`, made for the day `date`.
    spec fn presents(&self, date: Seq<char>, days: Seq<DailySchedule<N>>) -> bool;
}

impl<N> DailyResult<N> for Vec<DailySchedule<N>> {
    open spec fn presents(&self, date: Seq<char>, days: Seq<DailySchedule<N>>) -> bool {
        self@ == days
    }
}

impl<N> DailyResult<N> for DailyScheduleWithDate<N> {
    open spec fn presents(&self, date: Seq<char>, days: Seq<DailySchedule<N>>) -> bool {
        self.date@ == date && self.schedules@ == days
    }
}

/// What follows once the medicines of the first `medicines.len()` entries of
/// `schedules` are found: the finished view where that is all of them, else
/// the command to read the medicine that the next entry names.
pub open spec fn is_resolving_outcome<N, R: DailyResult<N>>(
    medicine_prefix: Seq<char>,
    date: Seq<char>,
    schedules: Seq<MedicineSchedule<N>>,
    medicines: Seq<Option<Medicine<N>>>,
    next: DailyProgress<N>,
    action: DailyAction<N, R>,
) -> bool {
    if medicines.len() >= schedules.len() {
        &&& next is Finished
        &&& action matches DailyAction::Finish(Ok(result))
        &&& exists|days: Seq<DailySchedule<N>>| #[trigger]
            is_daily_view(schedules, medicines, days) && result.presents(date, days)
    } else {
        &&& next matches DailyProgress::Resolving { schedules: s, medicines: m }
        &&& s@ == schedules
        &&& m@ == medicines
        &&& action matches DailyAction::AskMedicine(StoreCommand::Read { key })
        &&& key@ == key_of(medicine_prefix, schedules[medicines.len() as int].medicine_id@)
    }
}

/// The making has failed with the error `e`.
pub open spec fn is_daily_failure<N, R>(
    e: StoreError,
    next: DailyProgress<N>,
    action: DailyAction<N, R>,
) -> bool {
    next is Finished && action == DailyAction::<N, R>::Finish(Err(e))
}

/// `next` and `action` are what follows `progress` on `event` in the making
/// of the daily view for `date`, from the schedule entries under
/// `schedule_prefix` and the medicines under `medicine_prefix`.
///
/// All entries are listed first, as a listing of the repository does, whatever
/// the date. Then the medicine of each entry is read, one entry after the
/// other in the order of the listing; a medicine that is absent counts as
/// found to be missing. When all are read the view is made. The first failure
/// ends the making: that of a command, a stored medicine that is undecodable,
/// or an event that does not fit the progress.
pub open spec fn is_daily_step<N, R: DailyResult<N>>(
    schedule_prefix: Seq<char>,
    medicine_prefix: Seq<char>,
    date: Seq<char>,
    progress: DailyProgress<N>,
    event: DailyEvent<N>,
    next: DailyProgress<N>,
    action: DailyAction<N, R>,
) -> bool {
    match (progress, event) {
        (DailyProgress::Listing, DailyEvent::Begin) => {
            &&& next is Listing
            &&& action matches DailyAction::AskSchedules(StoreCommand::Scan { pattern })
            &&& pattern@ == scan_pattern_of(schedule_prefix)
        },
        (DailyProgress::Listing, DailyEvent::Schedules(StoreReply::Keys(keys))) => {
            if keys@.len() == 0 {
                is_resolving_outcome(
                    medicine_prefix,
                    date,
                    Seq::empty(),
                    Seq::empty(),
                    next,
                    action,
                )
            } else {
                next is Listing && action == DailyAction::<N, R>::AskSchedules(
                    StoreCommand::ReadMany { keys },
                )
            }
        },
        (DailyProgress::Listing, DailyEvent::Schedules(StoreReply::Values(values))) => {
            exists|schedules: Seq<MedicineSchedule<N>>| #[trigger]
                is_stable_sort_of(schedules, records_of(values@)) && is_resolving_outcome(
                    medicine_prefix,
                    date,
                    schedules,
                    Seq::empty(),
                    next,
                    action,
                )
        },
        (DailyProgress::Listing, DailyEvent::Schedules(other)) => is_daily_failure(
            refusal_of(other),
            next,
            action,
        ),
        (DailyProgress::Resolving { schedules, medicines }, DailyEvent::Medicine(reply)) => {
            if medicines@.len() >= schedules@.len() {
                is_daily_failure(StoreError::UnexpectedReply, next, action)
            } else {
                match reply {
                    StoreReply::Value(Fetched::Record(m)) => is_resolving_outcome(
                        medicine_prefix,
                        date,
                        schedules@,
                        medicines@.push(Some(m)),
                        next,
                        action,
                    ),
                    StoreReply::Value(Fetched::Absent) => is_resolving_outcome(
                        medicine_prefix,
                        date,
                        schedules@,
                        medicines@.push(None),
                        next,
                        action,
                    ),
                    StoreReply::Value(Fetched::Undecodable) => is_daily_failure(
                        StoreError::Decode,
                        next,
                        action,
                    ),
                    other => is_daily_failure(refusal_of(other), next, action),
                }
            }
        },
        _ => is_daily_failure(StoreError::UnexpectedReply, next, action),
    }
}

impl MedicineScheduleRepository {
    /// The repository of the namespace `prefix` in the store at `redis_url`,
    /// if the redis crate takes the address. Nothing is connected yet.
    pub fn new(redis_url: &str, prefix: String) -> (r: Result<Self, ConnectionError>)
        ensures
            r is Ok == redis_url_accepted(redis_url@),
            r matches Ok(repo) ==> repo.prefix == prefix,
            r matches Err(e) ==> e == ConnectionError::InvalidUrl,
    {
        Self::with_client(open_client(redis_url), prefix)
    }

    /// The repository of the namespace `prefix` behind the client that
    /// `opened` holds, or the error where it holds none.
    pub fn with_client(opened: Result<redis::Client, redis::RedisError>, prefix: String) -> (r:
        Result<Self, ConnectionError>)
        ensures
            r is Ok == opened is Ok,
            r matches Ok(repo) ==> repo.prefix == prefix && opened == Ok::<
                redis::Client,
                redis::RedisError,
            >(repo.redis_client),
            r matches Err(e) ==> e == ConnectionError::InvalidUrl,
    {
        match client_of(opened) {
            Ok(client) => Ok(MedicineScheduleRepository { redis_client: client, prefix }),
            Err(e) => Err(e),
        }
    }

    /// Begins the creation of an entry with the values of `api`: gives it a
    /// fresh identifier and the command that writes it at its key.
    pub fn create<N: Copy>(&self, api: ApiMedicineSchedule<N>) -> (c: Creation<MedicineSchedule<N>>)
        ensures
            is_random_uuid_text(c.id@),
            c.command matches StoreCommand::Write { key, record } && key@ == key_of(
                self.prefix@,
                c.id@,
            ) && record@ == (MedicineScheduleView {
                id: c.id@,
                time: api.time@,
                medicine_id: api.medicine_id@,
                description: Seq::empty(),
                amount: api.amount,
            }),
    {
        let schedule = api.to_schedule();
        let id = schedule.id.clone();
        Creation::new(self.prefix.as_str(), id, schedule)
    }

    /// One step of listing all entries, by ascending time.
    pub fn get_all<N>(&self, reply: Option<StoreReply<MedicineSchedule<N>>>) -> (step: Step<
        MedicineSchedule<N>,
        Vec<MedicineSchedule<N>>,
    >)
        ensures
            is_list_step(self.prefix@, reply, step),
    {
        list_step(self.prefix.as_str(), reply)
    }

    /// One step of reading the entry `id`.
    pub fn get_by_id<N>(&self, id: &str, reply: Option<StoreReply<MedicineSchedule<N>>>) -> (step:
        Step<MedicineSchedule<N>, Option<MedicineSchedule<N>>>)
        ensures
            is_read_step(self.prefix@, id@, reply, step),
    {
        read_step(self.prefix.as_str(), id, reply)
    }

    /// One step of updating the entry `id` to the values of `api`.
    pub fn update<N: Copy>(
        &self,
        id: &str,
        api: ApiMedicineSchedule<N>,
        reply: Option<StoreReply<MedicineSchedule<N>>>,
    ) -> (step: Step<MedicineSchedule<N>, bool>)
        ensures
            is_schedule_update_step(self.prefix@, id@, api, reply, step),
    {
        let schedule = api.to_schedule_with_id(String::from_str(id));
        write_step(self.prefix.as_str(), id, schedule, reply)
    }

    /// One step of deleting the entry `id`.
    pub fn delete<N>(&self, id: &str, reply: Option<StoreReply<MedicineSchedule<N>>>) -> (step:
        Step<MedicineSchedule<N>, ()>)
        ensures
            is_remove_step(self.prefix@, id@, reply, step),
    {
        remove_step(self.prefix.as_str(), id, reply)
    }

    /// What follows once `medicines` are found for the first entries of
    /// `schedules`: the view, or the next medicine to read.
    fn resolve_next<N: Copy>(
        medicine_repo: &MedicineRepository,
        schedules: Vec<MedicineSchedule<N>>,
        medicines: Vec<Option<Medicine<N>>>,
    ) -> (r: (DailyProgress<N>, DailyAction<N, Vec<DailySchedule<N>>>))
        requires
            medicines@.len() <= schedules@.len(),
        ensures
            is_resolving_outcome(
                medicine_repo.prefix@,
                Seq::empty(),
                schedules@,
                medicines@,
                r.0,
                r.1,
            ),
    {
        if medicines.len() >= schedules.len() {
            let days = build_daily_schedule(schedules, medicines);
            proof {
                assert(is_daily_view(schedules@, medicines@, days@));
                assert(days.presents(Seq::empty(), days@));
            }
            (DailyProgress::Finished, DailyAction::Finish(Ok(days)))
        } else {
            let step = medicine_repo.get_by_id::<N>(
                schedules[medicines.len()].medicine_id.as_str(),
                None,
            );
            match step {
                Step::Send(command) => (
                    DailyProgress::Resolving { schedules, medicines },
                    DailyAction::AskMedicine(command),
                ),
                Step::Finish(_) => {
                    // Not reached: a reading begins with a command.
                    proof {
                        assert(false);
                    }
                    (DailyProgress::Finished, DailyAction::Finish(Err(StoreError::UnexpectedReply)))
                },
            }
        }
    }

    /// One step of making the daily view; see [`is_daily_step`]. The date is
    /// not looked at: schedule entries recur every day.
    pub fn get_daily_schedule<N: Copy>(
        &self,
        _date: &str,
        medicine_repo: &MedicineRepository,
        progress: DailyProgress<N>,
        event: DailyEvent<N>,
    ) -> (r: (DailyProgress<N>, DailyAction<N, Vec<DailySchedule<N>>>))
        ensures
            is_daily_step(
                self.prefix@,
                medicine_repo.prefix@,
                Seq::empty(),
                progress,
                event,
                r.0,
                r.1,
            ),
    {
        let failed = StoreError::UnexpectedReply;
        match (progress, event) {
            (DailyProgress::Listing, DailyEvent::Begin) => {
                match self.get_all::<N>(None) {
                    Step::Send(command) => (
                        DailyProgress::Listing,
                        DailyAction::AskSchedules(command),
                    ),
                    Step::Finish(_) => {
                        // Not reached: a listing begins with a command.
                        proof {
                            assert(false);
                        }
                        (DailyProgress::Finished, DailyAction::Finish(Err(failed)))
                    },
                }
            },
            (DailyProgress::Listing, DailyEvent::Schedules(reply)) => {
                let ghost said = reply;
                match self.get_all(Some(reply)) {
                    Step::Send(command) => (
                        DailyProgress::Listing,
                        DailyAction::AskSchedules(command),
                    ),
                    Step::Finish(Ok(schedules)) => {
                        let r = Self::resolve_next(medicine_repo, schedules, Vec::new());
                        proof {
                            match said {
                                StoreReply::Values(values) => {
                                    assert(is_stable_sort_of(schedules@, records_of(values@)));
                                },
                                _ => {
                                    assert(schedules@ =~= Seq::empty());
                                },
                            }
                        }
                        r
                    },
                    Step::Finish(Err(e)) => (DailyProgress::Finished, DailyAction::Finish(Err(e))),
                }
            },
            (DailyProgress::Resolving { schedules, medicines }, DailyEvent::Medicine(reply)) => {
                if medicines.len() >= schedules.len() {
                    (DailyProgress::Finished, DailyAction::Finish(Err(failed)))
                } else {
                    let step = medicine_repo.get_by_id(
                        schedules[medicines.len()].medicine_id.as_str(),
                        Some(reply),
                    );
                    match step {
                        Step::Finish(Ok(found)) => {
                            let mut medicines = medicines;
                            medicines.push(found);
                            Self::resolve_next(medicine_repo, schedules, medicines)
                        },
                        Step::Finish(Err(e)) => (
                            DailyProgress::Finished,
                            DailyAction::Finish(Err(e)),
                        ),
                        Step::Send(_) => {
                            // Not reached: a reading ends with its first reply.
                            proof {
                                assert(false);
                            }
                            (DailyProgress::Finished, DailyAction::Finish(Err(failed)))
                        },
                    }
                }
            },
            _ => (DailyProgress::Finished, DailyAction::Finish(Err(failed))),
        }
    }

    /// One step of making the daily view under its date: as
    /// [`MedicineScheduleRepository::get_daily_schedule`], and the finished
    /// view carries `date` as it was given.
    pub fn get_daily_schedule_with_date<N: Copy>(
        &self,
        date: &str,
        medicine_repo: &MedicineRepository,
        progress: DailyProgress<N>,
        event: DailyEvent<N>,
    ) -> (r: (DailyProgress<N>, DailyAction<N, DailyScheduleWithDate<N>>))
        ensures
            is_daily_step(self.prefix@, medicine_repo.prefix@, date@, progress, event, r.0, r.1),
    {
        let (next, action) = self.get_daily_schedule(date, medicine_repo, progress, event);
        let dated = match action {
            DailyAction::AskSchedules(command) => DailyAction::AskSchedules(command),
            DailyAction::AskMedicine(command) => DailyAction::AskMedicine(command),
            DailyAction::Finish(Ok(days)) => {
                let view = DailyScheduleWithDate::new(String::from_str(date), days);
                proof {
                    assert(view.presents(date@, days@));
                }
                DailyAction::Finish(Ok(view))
            },
            DailyAction::Finish(Err(e)) => DailyAction::Finish(Err(e)),
        };
        (next, dated)
    }
}

} // verus!
