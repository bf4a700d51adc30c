use vstd::prelude::*;

verus! {

/// One notification of an attachment download, as the store delivers it.
#[derive(Clone, Copy, Debug, PartialEq, Eq, Structural)]
pub enum FetchEvent {
    /// Some of the bytes have arrived.
    Progress { downloaded_bytes: u64, total_bytes: u64 },
    /// All bytes are available locally; `total_bytes` is the attachment's length.
    Completed { total_bytes: u64 },
    /// The attachment was removed from the store.
    Deleted,
}

/// Where a download stands.
#[derive(Clone, Copy, Debug, PartialEq, Eq, Structural)]
pub enum FetchPhase {
    Idle,
    Fetching,
    Completed,
    Deleted,
}

/// Why an event was held back from the caller.
#[derive(Clone, Copy, Debug, PartialEq, Eq, Structural)]
pub enum FetchViolation {
    /// The download had already ended.
    AfterTerminal,
    /// More bytes were reported downloaded than the attachment holds.
    Overrun,
    /// The attachment's length differs from the one announced earlier.
    TotalChanged,
    /// Fewer bytes were reported than an earlier event did.
    Regressed,
}

/// What the caller is to do with an event.
#[derive(Clone, Copy, Debug, PartialEq, Eq, Structural)]
pub enum FetchAction {
    /// Hand the event on.
    Deliver(FetchEvent),
    /// Drop the event.
    Reject(FetchViolation),
}

/// Tracks one download and lets through only an ordered stream of events:
/// progress that never goes back, one announced length, and a single
/// terminal event that nothing follows.
#[derive(Clone, Copy, Debug, PartialEq, Eq, Structural)]
pub struct FetchMonitor {
    pub phase: FetchPhase,
    pub downloaded_bytes: u64,
    pub total_bytes: u64,
}

pub open spec fn is_terminal(e: FetchEvent) -> bool {
    e is Completed || e is Deleted
}

/// Bytes available once the event has happened (a completed download has them all).
pub open spec fn bytes_of(e: FetchEvent) -> u64 {
    match e {
        FetchEvent::Progress { downloaded_bytes, .. } => downloaded_bytes,
        FetchEvent::Completed { total_bytes } => total_bytes,
        FetchEvent::Deleted => 0,
    }
}

/// Length of the attachment as the event states it.
pub open spec fn total_of(e: FetchEvent) -> u64 {
    match e {
        FetchEvent::Progress { total_bytes, .. } => total_bytes,
        FetchEvent::Completed { total_bytes } => total_bytes,
        FetchEvent::Deleted => 0,
    }
}

pub open spec fn initial_monitor() -> FetchMonitor {
    FetchMonitor { phase: FetchPhase::Idle, downloaded_bytes: 0, total_bytes: 0 }
}

/// A monitor's fields agree: no more bytes downloaded than announced, and
/// nothing known before the first event.
pub open spec fn wf(m: FetchMonitor) -> bool {
    &&& m.downloaded_bytes <= m.total_bytes
    &&& m.phase is Idle ==> m.downloaded_bytes == 0 && m.total_bytes == 0
}

pub open spec fn is_finished(m: FetchMonitor) -> bool {
    m.phase is Completed || m.phase is Deleted
}

/// The decision on event `e` in state `m`.
pub open spec fn verdict(m: FetchMonitor, e: FetchEvent) -> FetchAction {
    if is_finished(m) {
        FetchAction::Reject(FetchViolation::AfterTerminal)
    } else {
        match e {
            FetchEvent::Progress { downloaded_bytes, total_bytes } => {
                if downloaded_bytes > total_bytes {
                    FetchAction::Reject(FetchViolation::Overrun)
                } else if m.phase is Fetching && total_bytes != m.total_bytes {
                    FetchAction::Reject(FetchViolation::TotalChanged)
                } else if downloaded_bytes < m.downloaded_bytes {
                    FetchAction::Reject(FetchViolation::Regressed)
                } else {
                    FetchAction::Deliver(e)
                }
            },
            FetchEvent::Completed { total_bytes } => {
                if m.phase is Fetching && total_bytes != m.total_bytes {
                    FetchAction::Reject(FetchViolation::TotalChanged)
                } else if total_bytes < m.downloaded_bytes {
                    FetchAction::Reject(FetchViolation::Regressed)
                } else {
                    FetchAction::Deliver(e)
                }
            },
            FetchEvent::Deleted => FetchAction::Deliver(e),
        }
    }
}

/// The state after event `e` in state `m`: a rejected event changes nothing.
pub open spec fn next(m: FetchMonitor, e: FetchEvent) -> FetchMonitor {
    match verdict(m, e) {
        FetchAction::Reject(_) => m,
        FetchAction::Deliver(_) => match e {
            FetchEvent::Progress { downloaded_bytes, total_bytes } => FetchMonitor {
                phase: FetchPhase::Fetching,
                downloaded_bytes,
                total_bytes,
            },
            FetchEvent::Completed { total_bytes } => FetchMonitor {
                phase: FetchPhase::Completed,
                downloaded_bytes: total_bytes,
                total_bytes,
            },
            FetchEvent::Deleted => FetchMonitor { phase: FetchPhase::Deleted, ..m },
        },
    }
}

/// The state after feeding `es` in order, starting from `m`.
pub open spec fn run(m: FetchMonitor, es: Seq<FetchEvent>) -> FetchMonitor
    decreases es.len(),
{
    if es.len() == 0 {
        m
    } else {
        run(next(m, es[0]), es.drop_first())
    }
}

/// The events handed on to the caller while feeding `es` in order, starting from `m`.
pub open spec fn delivered(m: FetchMonitor, es: Seq<FetchEvent>) -> Seq<FetchEvent>
    decreases es.len(),
{
    if es.len() == 0 {
        Seq::empty()
    } else {
        let rest = delivered(next(m, es[0]), es.drop_first());
        match verdict(m, es[0]) {
            FetchAction::Deliver(e) => seq![e] + rest,
            FetchAction::Reject(_) => rest,
        }
    }
}

proof fn lemma_finished_stays(m: FetchMonitor, es: Seq<FetchEvent>)
    requires
        is_finished(m),
    ensures
        delivered(m, es).len() == 0,
        run(m, es) == m,
    decreases es.len(),
{
    if es.len() > 0 {
        lemma_finished_stays(next(m, es[0]), es.drop_first());
    }
}

proof fn lemma_ordered_from(m: FetchMonitor, es: Seq<FetchEvent>)
    ensures
        ({
            let d = delivered(m, es);
            &&& forall|k: int|
                0 <= k < d.len() && !(#[trigger] d[k] is Deleted) ==> m.downloaded_bytes <= bytes_of(
                    d[k],
                ) && (m.phase is Fetching ==> total_of(d[k]) == m.total_bytes)
            &&& forall|i: int, j: int|
                0 <= i < j < d.len() && !(#[trigger] d[i] is Deleted) && !(#[trigger] d[j] is Deleted)
                    ==> bytes_of(d[i]) <= bytes_of(d[j]) && total_of(d[i]) == total_of(d[j])
            &&& forall|k: int|
                0 <= k < d.len() && (#[trigger] d[k] is Progress) ==> bytes_of(d[k]) <= total_of(
                    d[k],
                )
        }),
    decreases es.len(),
{
    if es.len() > 0 {
        let m2 = next(m, es[0]);
        lemma_ordered_from(m2, es.drop_first());
        let rest = delivered(m2, es.drop_first());
        let d = delivered(m, es);
        match verdict(m, es[0]) {
            FetchAction::Deliver(e) => {
                assert(d == seq![e] + rest);
                if is_terminal(e) {
                    lemma_finished_stays(m2, es.drop_first());
                }
                assert forall|k: int|
                    0 <= k < d.len() && !(#[trigger] d[k] is Deleted) implies m.downloaded_bytes
                    <= bytes_of(d[k]) && (m.phase is Fetching ==> total_of(d[k]) == m.total_bytes) by {
                    if k > 0 {
                        assert(d[k] == rest[k - 1]);
                    }
                }
                assert forall|i: int, j: int|
                    0 <= i < j < d.len() && !(#[trigger] d[i] is Deleted) && !(
                    #[trigger] d[j] is Deleted) implies bytes_of(d[i]) <= bytes_of(d[j]) && total_of(
                    d[i],
                ) == total_of(d[j]) by {
                    assert(d[j] == rest[j - 1]);
                    if i > 0 {
                        assert(d[i] == rest[i - 1]);
                    }
                }
                assert forall|k: int|
                    0 <= k < d.len() && (#[trigger] d[k] is Progress) implies bytes_of(d[k])
                    <= total_of(d[k]) by {
                    if k > 0 {
                        assert(d[k] == rest[k - 1]);
                    }
                }
            },
            FetchAction::Reject(_) => {},
        }
    }
}

proof fn lemma_terminal_from(m: FetchMonitor, es: Seq<FetchEvent>)
    ensures
        ({
            let d = delivered(m, es);
            &&& forall|k: int|
                0 <= k < d.len() && is_terminal(#[trigger] d[k]) ==> k == d.len() - 1
            &&& is_finished(run(m, es)) == (is_finished(m) || (d.len() > 0 && is_terminal(
                d.last(),
            )))
            &&& is_finished(m) ==> d.len() == 0
        }),
    decreases es.len(),
{
    if is_finished(m) {
        lemma_finished_stays(m, es);
    } else if es.len() > 0 {
        let m2 = next(m, es[0]);
        lemma_terminal_from(m2, es.drop_first());
        let rest = delivered(m2, es.drop_first());
        let d = delivered(m, es);
        match verdict(m, es[0]) {
            FetchAction::Deliver(e) => {
                assert(d == seq![e] + rest);
                if is_terminal(e) {
                    lemma_finished_stays(m2, es.drop_first());
                    assert(d.len() == 1);
                } else {
                    assert(!is_finished(m2));
                    assert forall|k: int|
                        0 <= k < d.len() && is_terminal(#[trigger] d[k]) implies k == d.len()
                        - 1 by {
                        if k > 0 {
                            assert(d[k] == rest[k - 1]);
                        }
                    }
                    if rest.len() > 0 {
                        assert(d.last() == rest.last());
                    }
                }
            },
            FetchAction::Reject(_) => {},
        }
    }
}

proof fn lemma_deleted_finishes(m: FetchMonitor, es: Seq<FetchEvent>, k: int)
    requires
        0 <= k < es.len(),
        es[k] is Deleted,
    ensures
        is_finished(run(m, es)),
    decreases es.len(),
{
    if is_finished(m) {
        lemma_finished_stays(m, es);
    } else if k == 0 {
        lemma_finished_stays(next(m, es[0]), es.drop_first());
    } else {
        lemma_deleted_finishes(next(m, es[0]), es.drop_first(), k - 1);
    }
}

proof fn lemma_run_push(m: FetchMonitor, es: Seq<FetchEvent>, e: FetchEvent)
    ensures
        run(m, es.push(e)) == next(run(m, es), e),
        delivered(m, es.push(e)) == delivered(m, es) + match verdict(run(m, es), e) {
            FetchAction::Deliver(x) => seq![x],
            FetchAction::Reject(_) => Seq::<FetchEvent>::empty(),
        },
    decreases es.len(),
{
    if es.len() == 0 {
        assert(es.push(e).drop_first() =~= es);
        assert(es.push(e)[0] == e);
        assert(delivered(next(m, e), es) == Seq::<FetchEvent>::empty());
        assert(run(next(m, e), es) == next(m, e));
        match verdict(m, e) {
            FetchAction::Deliver(x) => {
                assert(seq![x] + Seq::<FetchEvent>::empty() =~= seq![x]);
                assert(Seq::<FetchEvent>::empty() + seq![x] =~= seq![x]);
            },
            FetchAction::Reject(_) => {
                assert(Seq::<FetchEvent>::empty() + Seq::<FetchEvent>::empty() =~= Seq::<
                    FetchEvent,
                >::empty());
            },
        }
    } else {
        assert(es.push(e).drop_first() =~= es.drop_first().push(e));
        lemma_run_push(next(m, es[0]), es.drop_first(), e);
        assert(es.push(e)[0] == es[0]);
        let tail = match verdict(run(m, es), e) {
            FetchAction::Deliver(x) => seq![x],
            FetchAction::Reject(_) => Seq::<FetchEvent>::empty(),
        };
        let rest = delivered(next(m, es[0]), es.drop_first());
        match verdict(m, es[0]) {
            FetchAction::Deliver(x) => {
                assert(seq![x] + (rest + tail) =~= (seq![x] + rest) + tail);
            },
            FetchAction::Reject(_) => {},
        }
    }
}

/// Along any stream of events, what a fresh monitor hands on never goes back:
/// the bytes downloaded grow or stay, every event names the same length, no
/// progress exceeds that length, and a completion reports all of it.
pub proof fn lemma_fetch_progress_ordered(es: Seq<FetchEvent>)
    ensures
        ({
            let d = delivered(initial_monitor(), es);
            &&& forall|i: int, j: int|
                0 <= i < j < d.len() && !(#[trigger] d[i] is Deleted) && !(#[trigger] d[j] is Deleted)
                    ==> bytes_of(d[i]) <= bytes_of(d[j]) && total_of(d[i]) == total_of(d[j])
            &&& forall|k: int|
                0 <= k < d.len() && (#[trigger] d[k] is Progress) ==> bytes_of(d[k]) <= total_of(
                    d[k],
                )
            &&& forall|k: int|
                0 <= k < d.len() && (#[trigger] d[k] is Completed) ==> bytes_of(d[k]) == total_of(
                    d[k],
                )
        }),
{
    lemma_ordered_from(initial_monitor(), es);
}

/// Along any stream of events, a fresh monitor hands on at most one terminal
/// event (completion or deletion), and nothing after it; the download counts as
/// finished exactly when such an event was handed on.
pub proof fn lemma_fetch_single_terminal(es: Seq<FetchEvent>)
    ensures
        ({
            let d = delivered(initial_monitor(), es);
            &&& forall|k: int|
                0 <= k < d.len() && is_terminal(#[trigger] d[k]) ==> k == d.len() - 1
            &&& is_finished(run(initial_monitor(), es)) == (d.len() > 0 && is_terminal(d.last()))
            &&& (exists|k: int| 0 <= k < es.len() && (#[trigger] es[k] is Deleted)) ==> is_finished(
                run(initial_monitor(), es),
            )
        }),
{
    lemma_terminal_from(initial_monitor(), es);
    if exists|k: int| 0 <= k < es.len() && (#[trigger] es[k] is Deleted) {
        let k = choose|k: int| 0 <= k < es.len() && (#[trigger] es[k] is Deleted);
        lemma_deleted_finishes(initial_monitor(), es, k);
    }
}

impl FetchMonitor {
    /// A monitor for a download that has not reported anything yet.
    pub fn new() -> (r: FetchMonitor)
        ensures
            r == initial_monitor(),
            wf(r),
    {
        FetchMonitor { phase: FetchPhase::Idle, downloaded_bytes: 0, total_bytes: 0 }
    }

    /// Whether the download has ended, by completion or deletion.
    pub fn is_finished(&self) -> (r: bool)
        ensures
            r == is_finished(*self),
    {
        match self.phase {
            FetchPhase::Completed | FetchPhase::Deleted => true,
            _ => false,
        }
    }

    /// Decides on one event and moves to the next state.
    pub fn on_event(&mut self, e: FetchEvent) -> (r: FetchAction)
        ensures
            r == verdict(*old(self), e),
            *final(self) == next(*old(self), e),
            wf(*old(self)) ==> wf(*final(self)),
    {
        if self.is_finished() {
            return FetchAction::Reject(FetchViolation::AfterTerminal);
        }
        let fetching = match self.phase {
            FetchPhase::Fetching => true,
            _ => false,
        };
        match e {
            FetchEvent::Progress { downloaded_bytes, total_bytes } => {
                if downloaded_bytes > total_bytes {
                    FetchAction::Reject(FetchViolation::Overrun)
                } else if fetching && total_bytes != self.total_bytes {
                    FetchAction::Reject(FetchViolation::TotalChanged)
                } else if downloaded_bytes < self.downloaded_bytes {
                    FetchAction::Reject(FetchViolation::Regressed)
                } else {
                    self.phase = FetchPhase::Fetching;
                    self.downloaded_bytes = downloaded_bytes;
                    self.total_bytes = total_bytes;
                    FetchAction::Deliver(e)
                }
            },
            FetchEvent::Completed { total_bytes } => {
                if fetching && total_bytes != self.total_bytes {
                    FetchAction::Reject(FetchViolation::TotalChanged)
                } else if total_bytes < self.downloaded_bytes {
                    FetchAction::Reject(FetchViolation::Regressed)
                } else {
                    self.phase = FetchPhase::Completed;
                    self.downloaded_bytes = total_bytes;
                    self.total_bytes = total_bytes;
                    FetchAction::Deliver(e)
                }
            },
            FetchEvent::Deleted => {
                self.phase = FetchPhase::Deleted;
                FetchAction::Deliver(e)
            },
        }
    }

    /// Feeds `events` in order and returns those handed on.
    pub fn deliver_all(&mut self, events: &Vec<FetchEvent>) -> (r: Vec<FetchEvent>)
        ensures
            r@ == delivered(*old(self), events@),
            *final(self) == run(*old(self), events@),
            wf(*old(self)) ==> wf(*final(self)),
    {
        let ghost start = *self;
        let mut out: Vec<FetchEvent> = Vec::new();
        let mut i: usize = 0;
        while i < events.len()
            invariant
                i <= events@.len(),
                out@ == delivered(start, events@.take(i as int)),
                *self == run(start, events@.take(i as int)),
                wf(start) ==> wf(*self),
            decreases events@.len() - i,
        {
            let e = events[i];
            proof {
                lemma_run_push(start, events@.take(i as int), e);
                assert(events@.take(i as int).push(e) =~= events@.take(i + 1));
            }
            match self.on_event(e) {
                FetchAction::Deliver(x) => {
                    out.push(x);
                },
                FetchAction::Reject(_) => {},
            }
            i = i + 1;
        }
        proof {
            assert(events@.take(i as int) =~= events@);
        }
        out
    }
}

} // verus!
