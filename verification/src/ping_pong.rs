use vstd::prelude::*;

verus! {

/// Two copies of a resource used in turns: one update reads `back` and
/// writes `front`, then the two trade places, so the next update reads
/// what the last one wrote.
pub struct FrontBack<T> {
    pub front: T,
    pub back: T,
}

impl<T> FrontBack<T> {
    pub fn new(front: T, back: T) -> (r: Self)
        ensures
            r.front == front,
            r.back == back,
    {
        FrontBack { front, back }
    }

    /// Trades the roles of the two copies.
    pub fn swap_buffers(&mut self)
        ensures
            final(self).front == old(self).back,
            final(self).back == old(self).front,
    {
        std::mem::swap(&mut self.front, &mut self.back);
    }

    /// The copy the next update uses.
    pub fn current(&self) -> (r: &T)
        ensures
            *r == self.front,
    {
        &self.front
    }
}

/// `after` is `before` with the roles of every pair traded.
pub open spec fn all_swapped<T>(before: Seq<FrontBack<T>>, after: Seq<FrontBack<T>>) -> bool {
    &&& after.len() == before.len()
    &&& forall|i: int|
        0 <= i < after.len() ==> (#[trigger] after[i]).front == before[i].back && after[i].back
            == before[i].front
}

/// Trades the roles in every pair, keeping the pairs in order.
pub fn swap_all<T>(pairs: &mut Vec<FrontBack<T>>)
    ensures
        all_swapped(old(pairs)@, final(pairs)@),
{
    let ghost original = pairs@;
    // taken from the end, so `reversed[k]` is the swapped `original[n - 1 - k]`
    let mut reversed: Vec<FrontBack<T>> = Vec::new();
    while pairs.len() > 0
        invariant
            pairs@.len() + reversed@.len() == original.len(),
            forall|i: int| 0 <= i < pairs@.len() ==> pairs@[i] == original[i],
            forall|k: int|
                0 <= k < reversed@.len() ==> (#[trigger] reversed@[k]).front == original[original.len()
                    - 1 - k].back && reversed@[k].back == original[original.len() - 1 - k].front,
        decreases pairs@.len(),
    {
        let mut pair = pairs.pop().unwrap();
        pair.swap_buffers();
        reversed.push(pair);
    }
    while reversed.len() > 0
        invariant
            pairs@.len() + reversed@.len() == original.len(),
            forall|i: int|
                0 <= i < pairs@.len() ==> (#[trigger] pairs@[i]).front == original[i].back
                    && pairs@[i].back == original[i].front,
            forall|k: int|
                0 <= k < reversed@.len() ==> (#[trigger] reversed@[k]).front == original[original.len()
                    - 1 - k].back && reversed@[k].back == original[original.len() - 1 - k].front,
        decreases reversed@.len(),
    {
        let pair = reversed.pop().unwrap();
        pairs.push(pair);
    }
}

/// Trading all roles twice gives back the original pairs.
pub proof fn lemma_swap_all_twice<T>(a: Seq<FrontBack<T>>, b: Seq<FrontBack<T>>, c: Seq<FrontBack<T>>)
    requires
        all_swapped(a, b),
        all_swapped(b, c),
    ensures
        c == a,
{
    assert(c =~= a);
}

/// Swapping twice gives back the original roles, so the copies alternate
/// from one update to the next.
pub proof fn lemma_swap_twice<T>(a: FrontBack<T>, b: FrontBack<T>, c: FrontBack<T>)
    requires
        b.front == a.back && b.back == a.front,
        c.front == b.back && c.back == b.front,
    ensures
        c == a,
{
}

/// One of the two copies of a slice's position and velocity buffers.
#[derive(Clone, Copy, Debug, PartialEq, Eq, Structural)]
pub enum BufferCopy {
    /// Written by the first update.
    First,
    /// Holds the initial positions (and zero velocities); read by the first update.
    Second,
}

/// The buffers one update binds: the simulation reads positions and
/// velocities from one copy and writes the other, and the geometry pass
/// builds the vertices from the positions of one copy.
#[derive(Clone, Copy, Debug, PartialEq, Eq, Structural)]
pub struct UpdateBindings {
    pub simulation_reads: BufferCopy,
    pub simulation_writes: BufferCopy,
    pub geometry_reads: BufferCopy,
}

/// An update whose passes can run together: the simulation writes the
/// copy it does not read, and the geometry reads the same copy as the
/// simulation, which no pass writes.
pub open spec fn is_consistent_update(b: UpdateBindings) -> bool {
    &&& b.simulation_reads != b.simulation_writes
    &&& b.geometry_reads == b.simulation_reads
}

/// Two consistent updates in which each reads what the other writes.
pub open spec fn is_alternating_plan(plan: FrontBack<UpdateBindings>) -> bool {
    &&& is_consistent_update(plan.front)
    &&& is_consistent_update(plan.back)
    &&& plan.back.simulation_reads == plan.front.simulation_writes
    &&& plan.front.simulation_reads == plan.back.simulation_writes
}

/// The bindings of a slice: the first update reads the copy that holds the
/// initial positions and writes the other; then the roles alternate.
pub fn slice_binding_plan() -> (r: FrontBack<UpdateBindings>)
    ensures
        is_alternating_plan(r),
        r.front.simulation_reads == BufferCopy::Second,
{
    FrontBack::new(
        UpdateBindings {
            simulation_reads: BufferCopy::Second,
            simulation_writes: BufferCopy::First,
            geometry_reads: BufferCopy::Second,
        },
        UpdateBindings {
            simulation_reads: BufferCopy::First,
            simulation_writes: BufferCopy::Second,
            geometry_reads: BufferCopy::First,
        },
    )
}

/// After a swap, an alternating plan stays alternating, and the next update
/// reads, and draws from, the copy that the last update wrote.
pub proof fn lemma_next_update_reads_last_write(
    before: FrontBack<UpdateBindings>,
    after: FrontBack<UpdateBindings>,
)
    requires
        is_alternating_plan(before),
        after.front == before.back,
        after.back == before.front,
    ensures
        is_alternating_plan(after),
        after.front.simulation_reads == before.front.simulation_writes,
        after.front.geometry_reads == before.front.simulation_writes,
{
}

} // verus!
