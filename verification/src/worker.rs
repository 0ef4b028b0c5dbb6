use vstd::prelude::*;

verus! {

use crate::models::{FlexNum, SeatInfo, SegmentDay, SegmentTime};
use crate::text::{
    lemma_seq_lt_total,
    lemma_seq_lt_transitive,
    seq_lt,
    str_lt,
};

/// A seat is free when its status is the number 1 or the string `1`.
pub open spec fn seat_is_free(s: SeatInfo) -> bool {
    match s.status {
        FlexNum::Num(n) => n == 1,
        FlexNum::Str(t) => t@ == "1"@,
    }
}

/// Seat `k` is what the worker books out of `seats`: the first seat of the
/// free seats sorted (stably) by their number.
pub open spec fn is_best_seat(seats: Seq<SeatInfo>, k: int) -> bool {
    &&& 0 <= k < seats.len()
    &&& seat_is_free(seats[k])
    &&& forall|j: int|
        #![trigger seats[j]]
        0 <= j < seats.len() && seat_is_free(seats[j]) ==> (j < k ==> seq_lt(
            seats[k].no@,
            seats[j].no@,
        )) && (k < j ==> !seq_lt(seats[j].no@, seats[k].no@))
}

/// Whether a seat's status marks it free.
pub fn is_free_status(status: &FlexNum) -> (r: bool)
    ensures
        r == (match *status {
            FlexNum::Num(n) => n == 1,
            FlexNum::Str(t) => t@ == "1"@,
        }),
{
    match status {
        FlexNum::Num(n) => *n == 1,
        FlexNum::Str(t) => {
            let one = "1".to_owned();
            *t == one
        },
    }
}

/// The seat that the worker books: among the free seats, the one with the
/// smallest number, the first of them when several share it; `None` when no
/// seat is free.
pub fn select_seat(seats: &Vec<SeatInfo>) -> (r: Option<usize>)
    ensures
        r is None <==> forall|j: int| 0 <= j < seats@.len() ==> !seat_is_free(#[trigger] seats@[j]),
        r matches Some(k) ==> is_best_seat(seats@, k as int),
{
    let mut best: Option<usize> = None;
    let mut i: usize = 0;
    while i < seats.len()
        invariant
            i <= seats@.len(),
            best is None <==> forall|j: int| 0 <= j < i ==> !seat_is_free(#[trigger] seats@[j]),
            best matches Some(k) ==> {
                &&& k < i
                &&& seat_is_free(seats@[k as int])
                &&& forall|j: int|
                    #![trigger seats@[j]]
                    0 <= j < i && seat_is_free(seats@[j]) ==> (j < k ==> seq_lt(
                        seats@[k as int].no@,
                        seats@[j].no@,
                    )) && (k < j ==> !seq_lt(seats@[j].no@, seats@[k as int].no@))
            },
        decreases seats@.len() - i,
    {
        if is_free_status(&seats[i].status) {
            match best {
                None => {
                    best = Some(i);
                },
                Some(k) => {
                    if str_lt(seats[i].no.as_str(), seats[k].no.as_str()) {
                        proof {
                            let a = seats@[i as int].no@;
                            let b = seats@[k as int].no@;
                            assert forall|j: int|
                                #![trigger seats@[j]]
                                0 <= j < i && seat_is_free(seats@[j]) implies seq_lt(
                                a,
                                seats@[j].no@,
                            ) by {
                                let c = seats@[j].no@;
                                if j < k {
                                    lemma_seq_lt_transitive(a, b, c);
                                } else if j == k {
                                } else {
                                    if c != b {
                                        lemma_seq_lt_total(c, b);
                                        lemma_seq_lt_transitive(a, b, c);
                                    }
                                }
                            }
                        }
                        best = Some(i);
                    }
                },
            }
        }
        i = i + 1;
    }
    proof {
        if let Some(k) = best {
            assert(is_best_seat(seats@, k as int));
        }
    }
    best
}

/// Whether the worker still waits: its start time (`%Y-%m-%dT%H:%M`) comes
/// after the current local time in the same format, compared as strings.
pub fn before_start(start_time: &str, now: &str) -> (r: bool)
    ensures
        r == seq_lt(now@, start_time@),
{
    str_lt(now, start_time)
}

/// How long a worker waits before it looks at the clock again while its start
/// time has not come.
pub open spec fn wait_secs() -> u64 {
    15
}

/// The parameters of a background booking task.
pub struct WorkerTask {
    pub area_id: String,
    pub target_date: String,
    pub start_time: String,
    pub interval_sec: u64,
}

/// Where a booking worker stands.
pub enum WorkerStage {
    /// Between attempts; the next event is the clock.
    Idle,
    /// A CAS login was asked for.
    AwaitLogin,
    /// The time segments of the target day were asked for.
    AwaitSegment,
    /// The seats of the first segment were asked for.
    AwaitSeats { segment_id: String },
    /// A seat was booked.
    AwaitConfirm,
    /// The task is done.
    Stopped,
}

/// What the worker asks its runner to do next.
pub enum WorkerAction {
    /// Sleep, then answer with `WorkerEvent::Clock`.
    Sleep { secs: u64 },
    /// Log in afresh (no client of the task's user is pooled), pool the new
    /// client for the user, and answer with `WorkerEvent::LoginResult`.
    Login,
    /// Fetch the segments of `area_id` on `date`, with the client of this
    /// round, and answer with `WorkerEvent::SegmentResult`.
    FetchSegment { area_id: String, date: String },
    /// Fetch the seats and answer with `WorkerEvent::SeatsResult`.
    FetchSeats { area_id: String, segment_id: String, date: String, start: String, end: String },
    /// Book the seat (`seat_no` is its number, as the listing shows it) and
    /// answer with `WorkerEvent::ConfirmResult`.
    Confirm { seat_id: String, seat_no: String, segment_id: String },
    /// The seat is booked: forget the task.
    Complete,
}

/// What the runner observed.
pub enum WorkerEvent {
    /// The local time as `%Y-%m-%dT%H:%M`, and whether a client of the
    /// task's user is pooled; where one is, the runner uses it for the round.
    Clock { now: String, pooled: bool },
    /// Whether the login succeeded.
    LoginResult { ok: bool },
    /// The segments of the target day, `None` when the query failed.
    SegmentResult { day: Option<SegmentDay> },
    /// The seats, `None` when the query failed.
    SeatsResult { seats: Option<Vec<SeatInfo>> },
    /// Whether the booking succeeded.
    ConfirmResult { ok: bool },
}

/// A background booking worker.
pub struct Worker {
    pub task: WorkerTask,
    pub stage: WorkerStage,
}

/// Which events a stage expects.
pub open spec fn worker_accepts(stage: WorkerStage, event: WorkerEvent) -> bool {
    match stage {
        WorkerStage::Idle => event is Clock,
        WorkerStage::AwaitLogin => event is LoginResult,
        WorkerStage::AwaitSegment => event is SegmentResult,
        WorkerStage::AwaitSeats { .. } => event is SeatsResult,
        WorkerStage::AwaitConfirm => event is ConfirmResult,
        WorkerStage::Stopped => false,
    }
}

/// The worker goes back to `Idle` and sleeps for the task's interval.
pub open spec fn retries_later(old: Worker, new: Worker, a: WorkerAction) -> bool {
    &&& new.stage is Idle
    &&& a == WorkerAction::Sleep { secs: old.task.interval_sec }
}

/// The worker asks for the segments of its area on its target day.
pub open spec fn fetches_segment(old: Worker, new: Worker, a: WorkerAction) -> bool {
    &&& new.stage is AwaitSegment
    &&& a matches WorkerAction::FetchSegment { area_id, date } && area_id@ == old.task.area_id@
        && date@ == old.task.target_date@
}

/// One step of a booking worker.
pub open spec fn worker_step(old: Worker, event: WorkerEvent, new: Worker, a: WorkerAction) -> bool {
    &&& new.task == old.task
    &&& match (old.stage, event) {
        (WorkerStage::Idle, WorkerEvent::Clock { now, pooled }) => if seq_lt(
            now@,
            old.task.start_time@,
        ) {
            new.stage is Idle && a == WorkerAction::Sleep { secs: wait_secs() }
        } else if pooled {
            fetches_segment(old, new, a)
        } else {
            new.stage is AwaitLogin && a is Login
        },
        (WorkerStage::AwaitLogin, WorkerEvent::LoginResult { ok }) => if ok {
            fetches_segment(old, new, a)
        } else {
            retries_later(old, new, a)
        },
        (WorkerStage::AwaitSegment, WorkerEvent::SegmentResult { day }) => match day {
            Some(d) if d.times@.len() > 0 => {
                let t = d.times@[0];
                &&& new.stage matches WorkerStage::AwaitSeats { segment_id } && segment_id@
                    == t.id@
                &&& a matches WorkerAction::FetchSeats { area_id, segment_id, date, start, end }
                    && area_id@ == old.task.area_id@ && segment_id@ == t.id@ && date@
                    == old.task.target_date@ && start@ == t.start@ && end@ == t.end@
            },
            _ => retries_later(old, new, a),
        },
        (WorkerStage::AwaitSeats { segment_id }, WorkerEvent::SeatsResult { seats }) => match seats {
            Some(list) if exists|j: int|
                0 <= j < list@.len() && seat_is_free(#[trigger] list@[j]) => {
                &&& new.stage is AwaitConfirm
                &&& exists|k: int|
                    is_best_seat(list@, k) && (a matches WorkerAction::Confirm {
                        seat_id,
                        seat_no,
                        segment_id: sid,
                    } && seat_id@ == list@[k].id@ && seat_no@ == list@[k].no@ && sid@
                        == segment_id@)
            },
            _ => retries_later(old, new, a),
        },
        (WorkerStage::AwaitConfirm, WorkerEvent::ConfirmResult { ok }) => if ok {
            new.stage is Stopped && a is Complete
        } else {
            retries_later(old, new, a)
        },
        _ => false,
    }
}

fn string_of(s: &str) -> (r: String)
    ensures
        r@ == s@,
{
    s.to_owned()
}

impl Worker {
    /// A worker for `task`, waiting for the clock.
    pub fn new(task: WorkerTask) -> (r: Worker)
        ensures
            r.task == task,
            r.stage is Idle,
    {
        Worker { task, stage: WorkerStage::Idle }
    }

    /// Whether the worker can take `event` now: it answers the current
    /// stage's action.
    pub fn accepts_event(&self, event: &WorkerEvent) -> (r: bool)
        ensures
            r == worker_accepts(self.stage, *event),
    {
        match (&self.stage, event) {
            (WorkerStage::Idle, WorkerEvent::Clock { .. }) => true,
            (WorkerStage::AwaitLogin, WorkerEvent::LoginResult { .. }) => true,
            (WorkerStage::AwaitSegment, WorkerEvent::SegmentResult { .. }) => true,
            (WorkerStage::AwaitSeats { .. }, WorkerEvent::SeatsResult { .. }) => true,
            (WorkerStage::AwaitConfirm, WorkerEvent::ConfirmResult { .. }) => true,
            _ => false,
        }
    }

    fn retry(&mut self) -> (a: WorkerAction)
        ensures
            retries_later(*old(self), *final(self), a),
            final(self).task == old(self).task,
    {
        self.stage = WorkerStage::Idle;
        WorkerAction::Sleep { secs: self.task.interval_sec }
    }

    /// Takes the runner's observation and returns the next action; see
    /// `worker_step`.
    pub fn step(&mut self, event: WorkerEvent) -> (a: WorkerAction)
        requires
            worker_accepts(old(self).stage, event),
        ensures
            worker_step(*old(self), event, *final(self), a),
    {
        let mut stage = WorkerStage::Stopped;
        std::mem::swap(&mut stage, &mut self.stage);
        match stage {
            WorkerStage::Idle => match event {
                WorkerEvent::Clock { now, pooled } => {
                    if before_start(self.task.start_time.as_str(), now.as_str()) {
                        self.stage = WorkerStage::Idle;
                        WorkerAction::Sleep { secs: 15 }
                    } else if pooled {
                        self.stage = WorkerStage::AwaitSegment;
                        WorkerAction::FetchSegment {
                            area_id: string_of(self.task.area_id.as_str()),
                            date: string_of(self.task.target_date.as_str()),
                        }
                    } else {
                        self.stage = WorkerStage::AwaitLogin;
                        WorkerAction::Login
                    }
                },
                _ => {
                    assert(false);
                    WorkerAction::Complete
                },
            },
            WorkerStage::AwaitLogin => match event {
                WorkerEvent::LoginResult { ok } => {
                    if ok {
                        self.stage = WorkerStage::AwaitSegment;
                        WorkerAction::FetchSegment {
                            area_id: string_of(self.task.area_id.as_str()),
                            date: string_of(self.task.target_date.as_str()),
                        }
                    } else {
                        self.stage = WorkerStage::Idle;
                        self.retry()
                    }
                },
                _ => {
                    assert(false);
                    WorkerAction::Complete
                },
            },
            WorkerStage::AwaitSegment => match event {
                WorkerEvent::SegmentResult { day } => match day {
                    Some(d) => {
                        if d.times.len() > 0 {
                            let t: &SegmentTime = &d.times[0];
                            self.stage = WorkerStage::AwaitSeats { segment_id: string_of(t.id.as_str()) };
                            WorkerAction::FetchSeats {
                                area_id: string_of(self.task.area_id.as_str()),
                                segment_id: string_of(t.id.as_str()),
                                date: string_of(self.task.target_date.as_str()),
                                start: string_of(t.start.as_str()),
                                end: string_of(t.end.as_str()),
                            }
                        } else {
                            self.stage = WorkerStage::Idle;
                            self.retry()
                        }
                    },
                    None => {
                        self.stage = WorkerStage::Idle;
                        self.retry()
                    },
                },
                _ => {
                    assert(false);
                    WorkerAction::Complete
                },
            },
            WorkerStage::AwaitSeats { segment_id } => match event {
                WorkerEvent::SeatsResult { seats } => match seats {
                    Some(list) => match select_seat(&list) {
                        Some(k) => {
                            self.stage = WorkerStage::AwaitConfirm;
                            let a = WorkerAction::Confirm {
                                seat_id: string_of(list[k].id.as_str()),
                                seat_no: string_of(list[k].no.as_str()),
                                segment_id,
                            };
                            assert(is_best_seat(list@, k as int));
                            assert(seat_is_free(list@[k as int]));
                            a
                        },
                        None => {
                            self.stage = WorkerStage::Idle;
                            self.retry()
                        },
                    },
                    None => {
                        self.stage = WorkerStage::Idle;
                        self.retry()
                    },
                },
                _ => {
                    assert(false);
                    WorkerAction::Complete
                },
            },
            WorkerStage::AwaitConfirm => match event {
                WorkerEvent::ConfirmResult { ok } => {
                    if ok {
                        self.stage = WorkerStage::Stopped;
                        WorkerAction::Complete
                    } else {
                        self.stage = WorkerStage::Idle;
                        self.retry()
                    }
                },
                _ => {
                    assert(false);
                    WorkerAction::Complete
                },
            },
            WorkerStage::Stopped => {
                assert(false);
                WorkerAction::Complete
            },
        }
    }
}

/// A worker forgets its task only right after the service confirmed its
/// booking.
pub proof fn law_worker_completes_only_after_booking(
    old: Worker,
    event: WorkerEvent,
    new: Worker,
    a: WorkerAction,
)
    requires
        worker_step(old, event, new, a),
        a is Complete,
    ensures
        old.stage is AwaitConfirm,
        event == (WorkerEvent::ConfirmResult { ok: true }),
        new.stage is Stopped,
{
}

/// A worker books only the best free seat of the listing it just received,
/// in the segment it asked for.
pub proof fn law_worker_books_best_seat(old: Worker, event: WorkerEvent, new: Worker, a: WorkerAction)
    requires
        worker_step(old, event, new, a),
        a is Confirm,
    ensures
        old.stage matches WorkerStage::AwaitSeats { segment_id } && event matches WorkerEvent::SeatsResult {
            seats: Some(list),
        } && exists|k: int|
            is_best_seat(list@, k) && a->Confirm_seat_id@ == list@[k].id@ && a->Confirm_seat_no@
                == list@[k].no@ && a->Confirm_segment_id@ == segment_id@,
{
}

/// Before its start time a worker only waits, for 15 seconds at a time, and
/// asks for nothing.
pub proof fn law_worker_waits_before_start(
    old: Worker,
    now: String,
    pooled: bool,
    new: Worker,
    a: WorkerAction,
)
    requires
        worker_step(old, WorkerEvent::Clock { now, pooled }, new, a),
        seq_lt(now@, old.task.start_time@),
    ensures
        new.stage is Idle,
        a == (WorkerAction::Sleep { secs: 15 }),
{
}

/// A worker shares the client pool with the web side: once its start time
/// has come it asks for a CAS login exactly when no client of its user is
/// pooled, and otherwise goes straight to the segment query with the pooled
/// client.
pub proof fn law_worker_logs_in_only_without_pooled_client(
    old: Worker,
    now: String,
    pooled: bool,
    new: Worker,
    a: WorkerAction,
)
    requires
        worker_step(old, WorkerEvent::Clock { now, pooled }, new, a),
        !seq_lt(now@, old.task.start_time@),
    ensures
        a is Login <==> !pooled,
        pooled ==> fetches_segment(old, new, a),
{
}

/// A failed attempt never ends a task: the worker goes back to waiting for
/// its interval.
pub proof fn law_worker_retries_after_failure(
    old: Worker,
    event: WorkerEvent,
    new: Worker,
    a: WorkerAction,
)
    requires
        worker_step(old, event, new, a),
        event == (WorkerEvent::LoginResult { ok: false }) || event == (WorkerEvent::ConfirmResult {
            ok: false,
        }) || event == (WorkerEvent::SegmentResult { day: None }) || event
            == (WorkerEvent::SeatsResult { seats: None }),
    ensures
        new.stage is Idle,
        a == (WorkerAction::Sleep { secs: old.task.interval_sec }),
{
}

/// After a segment reply whose day has segments, the worker queries the seats
/// of the day's first segment over exactly that segment's window: its id,
/// its start and its end, in the task's area on the task's target day.
pub proof fn law_worker_queries_first_segment(
    old: Worker,
    day: SegmentDay,
    new: Worker,
    a: WorkerAction,
)
    requires
        old.stage is AwaitSegment,
        day.times@.len() > 0,
        worker_step(old, WorkerEvent::SegmentResult { day: Some(day) }, new, a),
    ensures
        a is FetchSeats,
        a->FetchSeats_area_id@ == old.task.area_id@,
        a->FetchSeats_date@ == old.task.target_date@,
        a->FetchSeats_segment_id@ == day.times@[0].id@,
        a->FetchSeats_start@ == day.times@[0].start@,
        a->FetchSeats_end@ == day.times@[0].end@,
        new.stage matches WorkerStage::AwaitSeats { segment_id } && segment_id@ == day.times@[0].id@,
{
}

/// Every stage but the last takes each reply to the action it asked for,
/// whatever the reply holds: a seat listing is taken whether the query
/// failed, every seat is taken or some seat is free, and likewise a login,
/// segment or booking result.
pub proof fn law_worker_accepts_every_reply(stage: WorkerStage, event: WorkerEvent)
    ensures
        stage is Idle && event is Clock ==> worker_accepts(stage, event),
        stage is AwaitLogin && event is LoginResult ==> worker_accepts(stage, event),
        stage is AwaitSegment && event is SegmentResult ==> worker_accepts(stage, event),
        stage is AwaitSeats && event is SeatsResult ==> worker_accepts(stage, event),
        stage is AwaitConfirm && event is ConfirmResult ==> worker_accepts(stage, event),
{
}

/// A seat listing in which no seat is free books nothing: the worker goes
/// back to waiting for its interval and scans again.
pub proof fn law_worker_rescans_full_listing(
    old: Worker,
    seats: Vec<SeatInfo>,
    new: Worker,
    a: WorkerAction,
)
    requires
        old.stage is AwaitSeats,
        forall|j: int| 0 <= j < seats@.len() ==> !seat_is_free(#[trigger] seats@[j]),
        worker_step(old, WorkerEvent::SeatsResult { seats: Some(seats) }, new, a),
    ensures
        new.stage is Idle,
        a == (WorkerAction::Sleep { secs: old.task.interval_sec }),
{
}

} // verus!
