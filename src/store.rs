use vstd::prelude::*;
use crate::layer_id::LayerId;
use crate::reachable::ConversionPlan;
use crate::status::{ConversionStatus, last_status, lookup_status};

verus! {

/// What the store conversion does next.
#[derive(Debug)]
pub enum NextStep {
    /// No layer is left.
    Done,
    /// The layer was converted in an earlier run and its destination is in
    /// place; its children were queued.
    Skip(LayerId),
    /// Convert the layer, after deleting what an interrupted earlier attempt
    /// left of it where `cleanup` is set.
    Convert { layer: LayerId, cleanup: bool },
}

/// How the conversion of one layer ended.
#[derive(Debug, Clone, Copy, PartialEq, Eq, Structural)]
pub enum LayerOutcome {
    Converted,
    /// The layer's destination already existed: it counts as converted.
    AlreadyConverted,
    Failed,
}

/// What the store conversion does with a layer's outcome.
#[derive(Debug, PartialEq, Eq, Structural)]
pub struct ResultStep {
    /// The status to append to the status log.
    pub status: ConversionStatus,
    /// Whether the run goes on; `false` ends it with this layer's error.
    pub go_on: bool,
}

/// The parent-before-child traversal of a whole store: a stack of layers
/// still to visit, seeded with the base layers, onto which a layer's
/// children are pushed once the layer is converted (or was, in an earlier
/// run). Each entry carries whether its parent was converted again in this
/// run, in which case the entry is attempted again too.
pub struct StoreTraversal {
    pub stack: Vec<(LayerId, bool)>,
    pub failures: Vec<LayerId>,
    pub keep_going: bool,
    /// The layers known to be converted: in this run, or recorded
    /// `Completed` by an earlier one with their destination in place.
    pub completed: Ghost<Set<LayerId>>,
}

/// A layer may be converted once it is a base layer of the plan or a child
/// of a layer already converted.
pub open spec fn ready(plan: &ConversionPlan, completed: Set<LayerId>, x: LayerId) -> bool {
    plan.children(None).contains(x) || exists|p: LayerId|
        completed.contains(p) && #[trigger] plan.children(Some(p)).contains(x)
}

/// Layers as stack entries, each marked with `redo`.
pub open spec fn tagged(c: Seq<LayerId>, redo: bool) -> Seq<(LayerId, bool)> {
    c.map_values(|x: LayerId| (x, redo))
}

/// What to do with a layer taken off the stack: `None` skips it; `Some(c)`
/// converts it, deleting what an earlier attempt left where `c` is set.
///
/// A layer recorded `Completed` is skipped while its destination is in
/// place, unless its parent was converted again in this run; one whose
/// destination is gone is converted again after a cleanup. A layer recorded
/// `Started` or `Error` is cleaned up and converted; one without a record is
/// converted.
pub open spec fn decide(status: Option<ConversionStatus>, destination_exists: bool, redo: bool) -> Option<bool> {
    match status {
        Some(ConversionStatus::Completed) => if !destination_exists {
            Some(true)
        } else if redo {
            Some(false)
        } else {
            None
        },
        Some(_) => Some(true),
        None => Some(false),
    }
}

proof fn lemma_ready_after_push(
    plan: &ConversionPlan,
    completed: Set<LayerId>,
    rest: Seq<(LayerId, bool)>,
    layer: LayerId,
    redo: bool,
)
    requires
        forall|i: int| 0 <= i < rest.len() ==> ready(plan, completed, #[trigger] rest[i].0),
    ensures
        forall|i: int|
            0 <= i < (rest + tagged(plan.children(Some(layer)), redo)).len() ==> ready(
                plan,
                completed.insert(layer),
                #[trigger] (rest + tagged(plan.children(Some(layer)), redo))[i].0,
            ),
{
    let c = plan.children(Some(layer));
    let t = tagged(c, redo);
    let done = completed.insert(layer);
    assert forall|i: int| 0 <= i < (rest + t).len() implies ready(plan, done, #[trigger] (rest + t)[i].0) by {
        let x = (rest + t)[i].0;
        if i < rest.len() {
            assert(x == rest[i].0);
            assert(ready(plan, completed, x));
            if !plan.children(None).contains(x) {
                let p = choose|p: LayerId| completed.contains(p) && #[trigger] plan.children(Some(p)).contains(x);
                assert(done.contains(p));
            }
        } else {
            assert(t[i - rest.len()] == (rest + t)[i]);
            assert(c[i - rest.len()] == x);
            assert(c.contains(x));
            assert(done.contains(layer));
        }
    }
}

fn push_children(stack: &mut Vec<(LayerId, bool)>, children: &Vec<LayerId>, redo: bool)
    ensures
        final(stack)@ == old(stack)@ + tagged(children@, redo),
{
    let ghost start = stack@;
    let mut i: usize = 0;
    while i < children.len()
        invariant
            i <= children.len(),
            stack@ == start + tagged(children@.take(i as int), redo),
        decreases children.len() - i,
    {
        stack.push((children[i], redo));
        proof {
            assert(tagged(children@.take(i + 1), redo) =~= tagged(children@.take(i as int), redo).push((children@[i as int], redo)));
            assert(start + tagged(children@.take(i + 1), redo) =~= (start + tagged(children@.take(i as int), redo)).push((children@[i as int], redo)));
        }
        i = i + 1;
    }
    proof {
        assert(children@.take(children.len() as int) == children@);
    }
}

impl StoreTraversal {
    /// Every layer waiting on the stack is ready to be converted.
    pub open spec fn wf(&self, plan: &ConversionPlan) -> bool {
        forall|i: int| 0 <= i < self.stack@.len() ==> ready(plan, self.completed@, #[trigger] self.stack@[i].0)
    }

    /// A traversal that starts from the base layers of the plan.
    pub fn new(plan: &ConversionPlan, keep_going: bool) -> (r: StoreTraversal)
        requires
            plan.wf(),
        ensures
            r.stack@ == tagged(plan.children(None), false),
            r.failures@.len() == 0,
            r.keep_going == keep_going,
            r.completed@ == Set::<LayerId>::empty(),
            r.wf(plan),
    {
        let mut stack: Vec<(LayerId, bool)> = Vec::new();
        let roots = plan.children_of(&None);
        push_children(&mut stack, &roots, false);
        let r = StoreTraversal { stack, failures: Vec::new(), keep_going, completed: Ghost(Set::empty()) };
        proof {
            assert(r.stack@ =~= tagged(plan.children(None), false));
            assert forall|i: int| 0 <= i < r.stack@.len() implies ready(plan, r.completed@, #[trigger] r.stack@[i].0) by {
                assert(plan.children(None)[i] == r.stack@[i].0);
            }
        }
        r
    }

    /// The layer that the next step is about, if any is left: the caller
    /// finds out whether its destination exists before taking the step.
    pub fn peek(&self) -> (r: Option<LayerId>)
        ensures
            self.stack@.len() == 0 ==> r is None,
            self.stack@.len() > 0 ==> r == Some(self.stack@.last().0),
    {
        if self.stack.len() == 0 {
            None
        } else {
            Some(self.stack[self.stack.len() - 1].0)
        }
    }

    /// Takes the next layer off the stack and decides what to do with it
    /// (see `decide`), from the status log's last record for it and from
    /// whether its destination exists. A skipped layer's children are
    /// queued as they are.
    pub fn next_step(
        &mut self,
        plan: &ConversionPlan,
        records: &Vec<(LayerId, ConversionStatus)>,
        destination_exists: bool,
    ) -> (r: NextStep)
        requires
            plan.wf(),
            old(self).wf(plan),
        ensures
            final(self).wf(plan),
            final(self).failures@ == old(self).failures@,
            final(self).keep_going == old(self).keep_going,
            r matches NextStep::Convert { layer, cleanup } ==> ready(plan, old(self).completed@, layer)
                && final(self).completed@ == old(self).completed@,
            r matches NextStep::Skip(layer) ==> final(self).completed@ == old(self).completed@.insert(layer),
            r matches NextStep::Done ==> final(self).completed@ == old(self).completed@,
            old(self).stack@.len() == 0 ==> r == NextStep::Done && final(self).stack@ == old(self).stack@,
            old(self).stack@.len() > 0 ==> ({
                let (layer, redo) = old(self).stack@.last();
                let rest = old(self).stack@.drop_last();
                match decide(last_status(records@, layer), destination_exists, redo) {
                    None => r == NextStep::Skip(layer) && final(self).stack@ == rest + tagged(
                        plan.children(Some(layer)),
                        false,
                    ),
                    Some(cleanup) => r == (NextStep::Convert { layer, cleanup }) && final(self).stack@
                        == rest,
                }
            }),
    {
        let ghost stack0 = self.stack@;
        match self.stack.pop() {
            None => NextStep::Done,
            Some(top) => {
                let (layer, redo) = top;
                proof {
                    assert(ready(plan, self.completed@, stack0[stack0.len() - 1].0));
                    assert forall|i: int| 0 <= i < self.stack@.len() implies ready(plan, self.completed@, #[trigger] self.stack@[i].0) by {
                        assert(self.stack@[i] == stack0[i]);
                    }
                }
                let status = lookup_status(records, &layer);
                let skip = match status {
                    Some(ConversionStatus::Completed) => destination_exists && !redo,
                    _ => false,
                };
                if skip {
                    proof {
                        lemma_ready_after_push(plan, self.completed@, self.stack@, layer, false);
                    }
                    let children = plan.children_of(&Some(layer));
                    push_children(&mut self.stack, &children, false);
                    self.completed = Ghost(self.completed@.insert(layer));
                    NextStep::Skip(layer)
                } else {
                    let cleanup = match status {
                        Some(ConversionStatus::Completed) => !destination_exists,
                        Some(_) => true,
                        None => false,
                    };
                    NextStep::Convert { layer, cleanup }
                }
            },
        }
    }

    /// Takes in how a layer's conversion ended. A converted layer is
    /// recorded `Completed` and its children are queued, to be attempted
    /// again; a failed one is recorded `Error`, and either noted while the
    /// run goes on (keep-going mode) or ends the run.
    pub fn record_result(&mut self, plan: &ConversionPlan, layer: LayerId, outcome: LayerOutcome) -> (r: ResultStep)
        requires
            plan.wf(),
            old(self).wf(plan),
        ensures
            final(self).wf(plan),
            final(self).keep_going == old(self).keep_going,
            outcome != LayerOutcome::Failed ==> final(self).completed@ == old(self).completed@.insert(layer),
            outcome == LayerOutcome::Failed ==> final(self).completed@ == old(self).completed@,
            outcome != LayerOutcome::Failed ==> r == (ResultStep { status: ConversionStatus::Completed, go_on: true })
                && final(self).stack@ == old(self).stack@ + tagged(plan.children(Some(layer)), true)
                && final(self).failures@ == old(self).failures@,
            outcome == LayerOutcome::Failed ==> r == (ResultStep { status: ConversionStatus::Error, go_on: old(self).keep_going })
                && final(self).stack@ == old(self).stack@
                && final(self).failures@ == if old(self).keep_going {
                    old(self).failures@.push(layer)
                } else {
                    old(self).failures@
                },
    {
        match outcome {
            LayerOutcome::Failed => {
                if self.keep_going {
                    self.failures.push(layer);
                }
                ResultStep { status: ConversionStatus::Error, go_on: self.keep_going }
            },
            _ => {
                proof {
                    lemma_ready_after_push(plan, self.completed@, self.stack@, layer, true);
                }
                let children = plan.children_of(&Some(layer));
                push_children(&mut self.stack, &children, true);
                self.completed = Ghost(self.completed@.insert(layer));
                ResultStep { status: ConversionStatus::Completed, go_on: true }
            },
        }
    }

    /// How the run ended once no layer is left: success, or the layers that
    /// failed.
    pub fn outcome(self) -> (r: Result<(), Vec<LayerId>>)
        ensures
            self.failures@.len() == 0 ==> r is Ok,
            self.failures@.len() > 0 ==> (r matches Err(f) && f@ == self.failures@),
    {
        if self.failures.len() == 0 {
            Ok(())
        } else {
            Err(self.failures)
        }
    }
}

} // verus!
