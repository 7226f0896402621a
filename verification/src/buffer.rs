//! The bounded receive buffer between the receive thread and the bus: frames are kept in
//! arrival order while fewer than its capacity are held, and dropped otherwise.
use vstd::prelude::*;
use std::collections::VecDeque;

verus! {

/// A first-in first-out buffer that holds at most `capacity` items.
pub struct ReceiveBuffer<T> {
    items: VecDeque<T>,
    capacity: usize,
}

impl<T> ReceiveBuffer<T> {
    /// The buffer never holds more than its capacity.
    #[verifier::type_invariant]
    spec fn within_capacity(self) -> bool {
        self.items@.len() <= self.capacity
    }
}

impl<T> View for ReceiveBuffer<T> {
    type V = (Seq<T>, nat);

    /// The held items, oldest first, and the capacity.
    closed spec fn view(&self) -> (Seq<T>, nat) {
        (self.items@, self.capacity as nat)
    }
}

/// What a buffer holding `held`, of capacity `capacity`, holds after `arrivals` were offered
/// to it in order: each one is kept while fewer than `capacity` are held, dropped otherwise.
pub open spec fn after_arrivals<T>(held: Seq<T>, capacity: nat, arrivals: Seq<T>) -> Seq<T>
    decreases arrivals.len(),
{
    if arrivals.len() == 0 {
        held
    } else {
        let before = after_arrivals(held, capacity, arrivals.drop_last());
        if before.len() < capacity {
            before.push(arrivals.last())
        } else {
            before
        }
    }
}

/// The smaller of two numbers.
pub open spec fn min_nat(a: nat, b: nat) -> nat {
    if a <= b {
        a
    } else {
        b
    }
}

/// Offering frames to a buffer keeps the earliest of them, as many as there is room for,
/// in order, and drops the rest: a buffer of capacity `c` holding `held` ends up with
/// `held` followed by the first `min(n, c - held.len())` of the `n` arrivals.
pub proof fn lemma_arrivals_kept<T>(held: Seq<T>, capacity: nat, arrivals: Seq<T>)
    requires
        held.len() <= capacity,
    ensures
        after_arrivals(held, capacity, arrivals) == held + arrivals.take(
            min_nat(arrivals.len(), (capacity - held.len()) as nat) as int,
        ),
    decreases arrivals.len(),
{
    if arrivals.len() > 0 {
        let prev = arrivals.drop_last();
        lemma_arrivals_kept(held, capacity, prev);
        let room = (capacity - held.len()) as nat;
        if prev.len() < room {
            assert(arrivals.take(prev.len() as int + 1) =~= prev.take(prev.len() as int).push(arrivals.last()));
            assert(held + arrivals.take(prev.len() as int + 1) =~= (held + prev.take(prev.len() as int)).push(
                arrivals.last(),
            ));
        } else {
            assert(arrivals.take(room as int) =~= prev.take(room as int));
        }
    }
}

impl<T> ReceiveBuffer<T> {
    /// An empty buffer of the given capacity; a capacity of zero keeps nothing.
    pub fn new(capacity: usize) -> (buffer: Self)
        ensures
            buffer@ == (Seq::<T>::empty(), capacity as nat),
    {
        ReceiveBuffer { items: VecDeque::new(), capacity }
    }

    /// Offers an arriving item: kept at the end while fewer than the capacity are held
    /// (`true`), dropped otherwise (`false`, and the buffer stays as it was).
    pub fn offer(&mut self, item: T) -> (kept: bool)
        ensures
            kept == (old(self)@.0.len() < old(self)@.1),
            final(self)@ == (after_arrivals(old(self)@.0, old(self)@.1, seq![item]), old(self)@.1),
    {
        proof {
            use_type_invariant(&*self);
            let one = seq![item];
            assert(one.drop_last() =~= Seq::<T>::empty());
            assert(after_arrivals(self@.0, self@.1, one.drop_last()) == self@.0);
            assert(one.last() == item);
        }
        if self.items.len() < self.capacity {
            let mut items = VecDeque::new();
            std::mem::swap(&mut items, &mut self.items);
            items.push_back(item);
            self.items = items;
            true
        } else {
            false
        }
    }

    /// Takes the oldest held item, if any.
    pub fn take(&mut self) -> (item: Option<T>)
        ensures
            old(self)@.0.len() == 0 ==> item is None && final(self)@ == old(self)@,
            old(self)@.0.len() > 0 ==> item == Some(old(self)@.0[0]) && final(self)@ == (
                old(self)@.0.drop_first(),
                old(self)@.1,
            ),
    {
        proof {
            use_type_invariant(&*self);
        }
        let mut items = VecDeque::new();
        std::mem::swap(&mut items, &mut self.items);
        let item = items.pop_front();
        self.items = items;
        proof {
            if old(self)@.0.len() > 0 {
                assert(self.items@ =~= old(self)@.0.drop_first());
            }
        }
        item
    }

    /// Takes all held items, oldest first; the buffer is then empty.
    pub fn drain(&mut self) -> (items: Vec<T>)
        ensures
            items@ == old(self)@.0,
            final(self)@ == (Seq::<T>::empty(), old(self)@.1),
    {
        let mut held = VecDeque::new();
        std::mem::swap(&mut held, &mut self.items);
        let ghost all = held@;
        let mut items: Vec<T> = Vec::new();
        while held.len() > 0
            invariant
                all == items@ + held@,
                all == old(self)@.0,
                self@ == (Seq::<T>::empty(), old(self)@.1),
            decreases held@.len(),
        {
            let ghost before = held@;
            let item = held.pop_front();
            match item {
                Some(x) => {
                    items.push(x);
                    assert(all =~= items@ + held@) by {
                        assert(before =~= seq![x] + before.drop_first());
                    }
                },
                None => {},
            }
        }
        assert(held@ =~= Seq::<T>::empty());
        assert(items@ =~= all);
        items
    }

    /// The number of held items.
    pub fn len(&self) -> (n: usize)
        ensures
            n == self@.0.len(),
    {
        self.items.len()
    }
}

} // verus!
