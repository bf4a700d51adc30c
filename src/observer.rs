use vstd::prelude::*;

verus! {

/// Where a one-shot wait on a standing query stands.
#[derive(Clone, Copy, Debug, PartialEq, Eq, Structural)]
pub enum GatePhase {
    /// No matching document has been taken yet.
    Waiting,
    /// The first matching document was taken.
    Fired,
    /// The observer was cancelled.
    Cancelled,
}

/// What can happen to a standing query observer.
#[derive(Clone, Copy, Debug, PartialEq, Eq, Structural)]
pub enum ObserverEvent {
    /// The observer's callback ran with a result set of `item_count` items.
    Results { item_count: usize },
    /// The observer was cancelled.
    Cancel,
}

/// Turns a standing query observer into a wait for its first non-empty result:
/// the first item of that result is taken once, and nothing is taken after the
/// gate has fired or the observer was cancelled.
#[derive(Clone, Copy, Debug, PartialEq, Eq, Structural)]
pub struct FirstResultGate {
    pub phase: GatePhase,
}

/// Whether event `ev` in phase `g` takes the first item of a result.
pub open spec fn gate_takes(g: GatePhase, ev: ObserverEvent) -> bool {
    match ev {
        ObserverEvent::Results { item_count } => g is Waiting && item_count > 0,
        ObserverEvent::Cancel => false,
    }
}

/// The phase after event `ev` in phase `g`.
pub open spec fn gate_next(g: GatePhase, ev: ObserverEvent) -> GatePhase {
    match ev {
        ObserverEvent::Results { .. } => if gate_takes(g, ev) {
            GatePhase::Fired
        } else {
            g
        },
        ObserverEvent::Cancel => GatePhase::Cancelled,
    }
}

/// How many items are taken while the events `evs` happen in order, from phase `g`.
pub open spec fn deliveries(g: GatePhase, evs: Seq<ObserverEvent>) -> nat
    decreases evs.len(),
{
    if evs.len() == 0 {
        0
    } else {
        (if gate_takes(g, evs[0]) {
            1nat
        } else {
            0nat
        }) + deliveries(gate_next(g, evs[0]), evs.drop_first())
    }
}

proof fn lemma_quiet_after_waiting(g: GatePhase, evs: Seq<ObserverEvent>)
    requires
        !(g is Waiting),
    ensures
        deliveries(g, evs) == 0,
    decreases evs.len(),
{
    if evs.len() > 0 {
        lemma_quiet_after_waiting(gate_next(g, evs[0]), evs.drop_first());
    }
}

/// A gate that has fired, or whose observer is cancelled, takes no item from
/// any later event: cancelling after the first callback ends all deliveries.
pub proof fn lemma_gate_quiet_after_fire_or_cancel(g: GatePhase, evs: Seq<ObserverEvent>)
    requires
        g is Fired || g is Cancelled,
    ensures
        deliveries(g, evs) == 0,
        deliveries(gate_next(g, ObserverEvent::Cancel), evs) == 0,
{
    lemma_quiet_after_waiting(g, evs);
    lemma_quiet_after_waiting(gate_next(g, ObserverEvent::Cancel), evs);
}

/// Whatever the observer reports, a fresh gate takes at most one item, and it
/// takes one whenever a non-empty result arrives before any cancellation.
pub proof fn lemma_gate_takes_at_most_once(evs: Seq<ObserverEvent>)
    ensures
        deliveries(GatePhase::Waiting, evs) <= 1,
        forall|k: int|
            0 <= k < evs.len() && gate_takes(GatePhase::Waiting, #[trigger] evs[k]) && (forall|
                j: int,
            | 0 <= j < k ==> evs[j] is Results) ==> deliveries(GatePhase::Waiting, evs) == 1,
    decreases evs.len(),
{
    if evs.len() > 0 {
        let g2 = gate_next(GatePhase::Waiting, evs[0]);
        if g2 is Waiting {
            lemma_gate_takes_at_most_once(evs.drop_first());
            assert forall|k: int|
                0 <= k < evs.len() && gate_takes(GatePhase::Waiting, #[trigger] evs[k]) && (forall|
                    j: int,
                | 0 <= j < k ==> evs[j] is Results) implies deliveries(GatePhase::Waiting, evs)
                == 1 by {
                assert(k > 0);
                let tail = evs.drop_first();
                assert(tail[k - 1] == evs[k]);
                assert forall|j: int| 0 <= j < k - 1 implies tail[j] is Results by {
                    assert(tail[j] == evs[j + 1]);
                }
            }
        } else {
            lemma_quiet_after_waiting(g2, evs.drop_first());
        }
    }
}

impl FirstResultGate {
    /// A gate that has taken nothing yet.
    pub fn new() -> (r: FirstResultGate)
        ensures
            r.phase == GatePhase::Waiting,
    {
        FirstResultGate { phase: GatePhase::Waiting }
    }

    /// Whether the first item was taken.
    pub fn has_fired(&self) -> (r: bool)
        ensures
            r == (self.phase is Fired),
    {
        match self.phase {
            GatePhase::Fired => true,
            _ => false,
        }
    }

    /// Decides on one callback with a result of `item_count` items: `true`
    /// means the first item is to be taken.
    pub fn on_results(&mut self, item_count: usize) -> (r: bool)
        ensures
            r == gate_takes(old(self).phase, ObserverEvent::Results { item_count }),
            final(self).phase == gate_next(old(self).phase, ObserverEvent::Results { item_count }),
    {
        match self.phase {
            GatePhase::Waiting => {
                if item_count > 0 {
                    self.phase = GatePhase::Fired;
                    true
                } else {
                    false
                }
            },
            _ => false,
        }
    }

    /// Records that the observer was cancelled.
    pub fn cancel(&mut self)
        ensures
            final(self).phase == gate_next(old(self).phase, ObserverEvent::Cancel),
    {
        self.phase = GatePhase::Cancelled;
    }

    /// Applies one event; returns whether it takes the first item.
    pub fn on_event(&mut self, ev: ObserverEvent) -> (r: bool)
        ensures
            r == gate_takes(old(self).phase, ev),
            final(self).phase == gate_next(old(self).phase, ev),
    {
        match ev {
            ObserverEvent::Results { item_count } => self.on_results(item_count),
            ObserverEvent::Cancel => {
                self.cancel();
                false
            },
        }
    }
}

} // verus!
