use vstd::prelude::*;

verus! {

/// Number of input slots in the simulation uniform (the shader's array length).
pub const MAX_INPUT_POINTS: u16 = 32;

/// Number of points handled by one compute workgroup.
pub const WORKGROUP_SIZE: u32 = 256;

/// Bytes taken by one point position (two 32-bit floats).
pub const POINT_POSITION_BYTES: usize = 8;

/// Bytes before the input positions in the simulation uniform:
/// the update count and three words of padding.
pub const UNIFORM_HEADER_BYTES: usize = 16;

/// Total size in bytes of the simulation uniform.
pub const SIMULATION_UNIFORM_BYTES: usize = 272;

/// Number of inputs that take part in one simulation update: all of them,
/// up to one less than the number of input slots.
pub open spec fn spec_active_input_count(n: int) -> int {
    if n < MAX_INPUT_POINTS - 1 { n } else { MAX_INPUT_POINTS - 1 }
}

/// Every input takes part while there are fewer inputs than the last slot's
/// index; beyond that, the count stays at that index, and it always leaves
/// the last slot free.
pub proof fn lemma_active_input_count(n: int)
    requires
        n >= 0,
    ensures
        n < MAX_INPUT_POINTS - 1 ==> spec_active_input_count(n) == n,
        n >= MAX_INPUT_POINTS - 1 ==> spec_active_input_count(n) == MAX_INPUT_POINTS - 1,
        0 <= spec_active_input_count(n) <= n,
        spec_active_input_count(n) < MAX_INPUT_POINTS,
        spec_active_input_count(n + 1) - spec_active_input_count(n) <= 1,
{
}

/// How many of `input_count` inputs are uploaded; this is also the index of
/// the simulation pipeline that is used.
pub fn active_input_count(input_count: usize) -> (r: usize)
    ensures
        r == spec_active_input_count(input_count as int),
        r < MAX_INPUT_POINTS,
        input_count < MAX_INPUT_POINTS - 1 ==> r == input_count,
        input_count >= MAX_INPUT_POINTS - 1 ==> r == MAX_INPUT_POINTS - 1,
{
    let limit: usize = (MAX_INPUT_POINTS - 1) as usize;
    if input_count < limit { input_count } else { limit }
}

/// Number of bytes of the simulation uniform that are uploaded when
/// `input_count` input slots are in use: the header and those slots, no more.
pub fn uniform_upload_len(input_count: usize) -> (r: usize)
    requires
        input_count <= MAX_INPUT_POINTS,
    ensures
        r == UNIFORM_HEADER_BYTES + POINT_POSITION_BYTES * input_count,
        r <= SIMULATION_UNIFORM_BYTES,
{
    UNIFORM_HEADER_BYTES + POINT_POSITION_BYTES * input_count
}

/// Copies the inputs that take part in an update into the uniform's input
/// slots, in order, and returns how many were copied. Slots past that
/// count keep what they held.
pub fn fill_input_slots<P: Copy>(slots: &mut [P; 32], inputs: &[P]) -> (count: usize)
    ensures
        count == spec_active_input_count(inputs@.len() as int),
        inputs@.len() < MAX_INPUT_POINTS - 1 ==> count == inputs@.len(),
        inputs@.len() >= MAX_INPUT_POINTS - 1 ==> count == MAX_INPUT_POINTS - 1,
        forall|i: int| 0 <= i < count ==> final(slots)@[i] == inputs@[i],
        forall|i: int| count <= i < 32 ==> final(slots)@[i] == old(slots)@[i],
{
    let count = active_input_count(inputs.len());
    let mut i: usize = 0;
    while i < count
        invariant
            count == spec_active_input_count(inputs@.len() as int),
            count < 32,
            i <= count,
            forall|j: int| 0 <= j < i ==> slots@[j] == inputs@[j],
            forall|j: int| i <= j < 32 ==> slots@[j] == old(slots)@[j],
        decreases count - i,
    {
        slots[i] = inputs[i];
        i = i + 1;
    }
    count
}

/// Number of workgroups that cover `point_count` points, rounding up.
pub fn dispatch_workgroup_count(point_count: u32) -> (r: u32)
    ensures
        r as int * WORKGROUP_SIZE >= point_count,
        (r as int - 1) * WORKGROUP_SIZE < point_count,
{
    let whole = point_count / WORKGROUP_SIZE;
    if point_count % WORKGROUP_SIZE == 0 { whole } else { whole + 1 }
}

/// Number of indices that draw a slice of `point_count` points:
/// four corners and one strip restart per point.
pub fn slice_index_count(point_count: u32) -> (r: u32)
    requires
        5 * point_count <= u32::MAX,
    ensures
        r == 5 * point_count,
{
    5 * point_count
}

/// Sizes in bytes of the buffers one slice of points needs.
pub struct SliceBufferSizes {
    /// Each of the two position buffers.
    pub position_bytes: u64,
    /// Each of the two velocity buffers.
    pub velocity_bytes: u64,
    /// The vertex buffer: four corners per point.
    pub vertex_bytes: u64,
}

/// Buffer sizes for a slice of `point_count` points.
pub fn slice_buffer_sizes(point_count: u32) -> (r: SliceBufferSizes)
    ensures
        r.position_bytes == POINT_POSITION_BYTES * point_count,
        r.velocity_bytes == POINT_POSITION_BYTES * point_count,
        r.vertex_bytes == 4 * (POINT_POSITION_BYTES * point_count),
{
    let n = point_count as u64;
    let point_bytes: u64 = 8;
    assert(point_bytes == POINT_POSITION_BYTES);
    SliceBufferSizes {
        position_bytes: point_bytes * n,
        velocity_bytes: point_bytes * n,
        vertex_bytes: 4 * (point_bytes * n),
    }
}

} // verus!
