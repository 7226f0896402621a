//! Frame callbacks keyed by frame id, and which buffered frames a spin hands to them.
use vstd::prelude::*;
use std::collections::HashMap;
use crate::error::JcanError;
use crate::frame::JFrame;

verus! {

broadcast use vstd::std_specs::hash::group_hash_axioms;

/// At most one callback per frame id.
pub struct CallbackTable<C> {
    callbacks: HashMap<u32, C>,
}

impl<C> View for CallbackTable<C> {
    type V = Map<u32, C>;

    /// The callback registered for each frame id.
    closed spec fn view(&self) -> Map<u32, C> {
        self.callbacks@
    }
}

/// The positions of the frames, in order, whose id has a callback in `registered`.
pub open spec fn dispatch_plan(ids: Seq<u32>, registered: Set<u32>) -> Seq<usize>
    decreases ids.len(),
{
    if ids.len() == 0 {
        Seq::empty()
    } else if registered.contains(ids.last()) {
        dispatch_plan(ids.drop_last(), registered).push((ids.len() - 1) as usize)
    } else {
        dispatch_plan(ids.drop_last(), registered)
    }
}

/// A spin hands every frame whose id has a callback to it exactly once, in the order the
/// frames were buffered, and skips the others.
pub proof fn lemma_dispatch_plan(ids: Seq<u32>, registered: Set<u32>)
    requires
        ids.len() <= usize::MAX,
    ensures
        forall|k: int| 0 <= k < dispatch_plan(ids, registered).len() ==> {
            let i = #[trigger] dispatch_plan(ids, registered)[k] as int;
            0 <= i < ids.len() && registered.contains(ids[i])
        },
        forall|k: int, l: int| 0 <= k < l < dispatch_plan(ids, registered).len()
            ==> #[trigger] dispatch_plan(ids, registered)[k] < #[trigger] dispatch_plan(ids, registered)[l],
        forall|i: int| 0 <= i < ids.len() && registered.contains(#[trigger] ids[i])
            ==> dispatch_plan(ids, registered).contains(i as usize),
    decreases ids.len(),
{
    if ids.len() > 0 {
        let prev = ids.drop_last();
        lemma_dispatch_plan(prev, registered);
        let p = dispatch_plan(prev, registered);
        let plan = dispatch_plan(ids, registered);
        let last = (ids.len() - 1) as usize;
        if registered.contains(ids.last()) {
            assert(plan == p.push(last));
            assert forall|k: int| 0 <= k < plan.len() implies {
                let i = #[trigger] plan[k] as int;
                0 <= i < ids.len() && registered.contains(ids[i])
            } by {
                if k < p.len() {
                    assert(plan[k] == p[k]);
                    assert(prev[p[k] as int] == ids[p[k] as int]);
                }
            }
            assert forall|k: int, l: int| 0 <= k < l < plan.len() implies #[trigger] plan[k] < #[trigger] plan[l] by {
                assert(plan[k] == p[k]);
                if l < p.len() {
                    assert(plan[l] == p[l]);
                } else {
                    assert(p[k] < prev.len());
                }
            }
        } else {
            assert(plan == p);
            assert forall|k: int| 0 <= k < plan.len() implies {
                let i = #[trigger] plan[k] as int;
                0 <= i < ids.len() && registered.contains(ids[i])
            } by {
                assert(prev[p[k] as int] == ids[p[k] as int]);
            }
        }
        assert forall|i: int| 0 <= i < ids.len() && registered.contains(#[trigger] ids[i])
            implies plan.contains(i as usize) by {
            if i < ids.len() - 1 {
                assert(prev[i] == ids[i]);
                let k = choose|k: int| 0 <= k < p.len() && p[k] == i as usize;
                assert(plan[k] == p[k]);
            } else {
                assert(plan[plan.len() - 1] == i as usize);
            }
        }
    }
}

/// The ids of a sequence of frames.
pub open spec fn frame_ids(frames: Seq<JFrame>) -> Seq<u32> {
    frames.map_values(|f: JFrame| f@.0)
}

impl<C> CallbackTable<C> {
    /// A table without callbacks.
    pub fn new() -> (table: Self)
        ensures
            table@ == Map::<u32, C>::empty(),
    {
        CallbackTable { callbacks: HashMap::new() }
    }

    /// Registers `callback` for frames of id `frame_id`, replacing an earlier one.
    /// A callback that takes no positional argument (`arg_count` below one) is refused and
    /// the table stays as it was.
    pub fn add_callback(&mut self, frame_id: u32, callback: C, arg_count: u32) -> (r: Result<(), JcanError>)
        ensures
            arg_count < 1 ==> r == Err::<(), JcanError>(JcanError::CallbackArity) && final(self)@ == old(self)@,
            arg_count >= 1 ==> r is Ok && final(self)@ == old(self)@.insert(frame_id, callback),
    {
        if arg_count < 1 {
            return Err(JcanError::CallbackArity);
        }
        self.callbacks.insert(frame_id, callback);
        Ok(())
    }

    /// The callback registered for `frame_id`, if any.
    pub fn callback_for(&self, frame_id: u32) -> (r: Option<&C>)
        ensures
            r == (if self@.contains_key(frame_id) { Some(&self@[frame_id]) } else { None::<&C> }),
    {
        self.callbacks.get(&frame_id)
    }

    /// The positions, in order, of the buffered frames that a spin hands to a callback:
    /// those whose id has one. Frames without a callback are skipped.
    pub fn spin(&self, frames: &Vec<JFrame>) -> (plan: Vec<usize>)
        ensures
            plan@ == dispatch_plan(frame_ids(frames@), self@.dom()),
    {
        let mut plan: Vec<usize> = Vec::new();
        let mut i: usize = 0;
        while i < frames.len()
            invariant
                i <= frames@.len(),
                plan@ == dispatch_plan(frame_ids(frames@.take(i as int)), self@.dom()),
            decreases frames@.len() - i,
        {
            let id = frames[i].get_id();
            let found = self.callbacks.contains_key(&id);
            proof {
                let ids = frame_ids(frames@.take(i + 1));
                assert(ids.drop_last() =~= frame_ids(frames@.take(i as int)));
                assert(ids.last() == id);
                assert(ids.len() == i + 1);
            }
            if found {
                plan.push(i);
            }
            i = i + 1;
        }
        assert(frames@.take(i as int) =~= frames@);
        plan
    }
}

/// The error of a spin, from the outcomes of the callbacks it called in order: `None` when
/// all succeeded; otherwise the message of the first failure, as
/// `Error calling callback: ` followed by the callback's message.
pub open spec fn spin_error_text(outcomes: Seq<Result<(), String>>) -> Option<Seq<char>>
    decreases outcomes.len(),
{
    if outcomes.len() == 0 {
        None
    } else {
        match outcomes[0] {
            Err(e) => Some("Error calling callback: "@ + e@),
            Ok(_) => spin_error_text(outcomes.drop_first()),
        }
    }
}

/// A spin whose callbacks all succeeded succeeds.
pub proof fn lemma_spin_all_succeeded(outcomes: Seq<Result<(), String>>)
    requires
        forall|j: int| 0 <= j < outcomes.len() ==> #[trigger] outcomes[j] is Ok,
    ensures
        spin_error_text(outcomes) is None,
    decreases outcomes.len(),
{
    if outcomes.len() > 0 {
        let rest = outcomes.drop_first();
        assert forall|j: int| 0 <= j < rest.len() implies #[trigger] rest[j] is Ok by {
            assert(rest[j] == outcomes[j + 1]);
        }
        assert(outcomes[0] is Ok);
        lemma_spin_all_succeeded(rest);
    }
}

/// When the callback at position `k` is the first to fail, with message `e`, the spin fails
/// with `Error calling callback: ` followed by `e`, whatever the later callbacks gave.
pub proof fn lemma_spin_first_failure(outcomes: Seq<Result<(), String>>, k: int, e: String)
    requires
        0 <= k < outcomes.len(),
        outcomes[k] == Err::<(), String>(e),
        forall|j: int| 0 <= j < k ==> #[trigger] outcomes[j] is Ok,
    ensures
        spin_error_text(outcomes) == Some("Error calling callback: "@ + e@),
    decreases k,
{
    if k > 0 {
        let rest = outcomes.drop_first();
        assert(outcomes[0] is Ok);
        assert(rest[k - 1] == outcomes[k]);
        assert forall|j: int| 0 <= j < k - 1 implies #[trigger] rest[j] is Ok by {
            assert(rest[j] == outcomes[j + 1]);
        }
        lemma_spin_first_failure(rest, k - 1, e);
    }
}

/// The result of a spin from the outcomes of the callbacks it called in order: success when
/// all succeeded, else the first failure, as `spin_error_text` words it.
pub fn spin_outcome(outcomes: &Vec<Result<(), String>>) -> (r: Result<(), String>)
    ensures
        match r {
            Ok(()) => spin_error_text(outcomes@) is None,
            Err(message) => spin_error_text(outcomes@) == Some(message@),
        },
{
    let mut i: usize = 0;
    assert(outcomes@.skip(0) =~= outcomes@);
    while i < outcomes.len()
        invariant
            i <= outcomes@.len(),
            spin_error_text(outcomes@) == spin_error_text(outcomes@.skip(i as int)),
        decreases outcomes@.len() - i,
    {
        let ghost rest = outcomes@.skip(i as int);
        assert(rest[0] == outcomes@[i as int]);
        match &outcomes[i] {
            Err(e) => {
                let mut message = String::from_str("Error calling callback: ");
                message.append(e.as_str());
                return Err(message);
            },
            Ok(()) => {},
        }
        assert(rest.drop_first() =~= outcomes@.skip(i + 1));
        i = i + 1;
    }
    assert(outcomes@.skip(i as int) =~= Seq::<Result<(), String>>::empty());
    Ok(())
}

} // verus!
