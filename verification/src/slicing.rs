use vstd::prelude::*;

use crate::layout::{slice_index_count, POINT_POSITION_BYTES, WORKGROUP_SIZE};

verus! {

/// The smaller of two integers.
pub open spec fn min_int(a: int, b: int) -> int {
    if a <= b { a } else { b }
}

/// The largest number of points one slice may hold: a slice is dispatched
/// in one row of workgroups, and its vertex buffer (four corners per point)
/// must fit both a storage binding and a buffer.
pub open spec fn spec_max_points_per_slice(
    max_workgroups: int,
    max_storage_binding_bytes: int,
    max_buffer_bytes: int,
) -> int {
    min_int(
        min_int(
            max_workgroups * WORKGROUP_SIZE,
            max_storage_binding_bytes / 4 / POINT_POSITION_BYTES as int,
        ),
        max_buffer_bytes / 4 / POINT_POSITION_BYTES as int,
    )
}

/// The largest slice is the tightest of the three limits: no more points
/// than the workgroups can process, no more than fit a storage binding or a
/// buffer at 32 vertex bytes per point, and equal to one of them.
pub proof fn lemma_max_points_is_tightest_limit(
    max_workgroups: int,
    max_storage_binding_bytes: int,
    max_buffer_bytes: int,
)
    requires
        max_workgroups >= 0,
        max_storage_binding_bytes >= 0,
        max_buffer_bytes >= 0,
    ensures
        ({
            let r = spec_max_points_per_slice(max_workgroups, max_storage_binding_bytes, max_buffer_bytes);
            &&& r <= max_workgroups * WORKGROUP_SIZE
            &&& r <= max_storage_binding_bytes / 32
            &&& r <= max_buffer_bytes / 32
            &&& (r == max_workgroups * WORKGROUP_SIZE || r == max_storage_binding_bytes / 32 || r
                == max_buffer_bytes / 32)
        }),
{
    assert(max_storage_binding_bytes / 4 / 8 == max_storage_binding_bytes / 32) by (nonlinear_arith)
        requires
            max_storage_binding_bytes >= 0,
    ;
    assert(max_buffer_bytes / 4 / 8 == max_buffer_bytes / 32) by (nonlinear_arith)
        requires
            max_buffer_bytes >= 0,
    ;
}

/// Largest number of points per slice for the given device limits.
pub fn max_points_per_slice(
    max_workgroups: u32,
    max_storage_binding_bytes: usize,
    max_buffer_bytes: usize,
) -> (r: usize)
    requires
        max_workgroups * WORKGROUP_SIZE <= usize::MAX,
    ensures
        r == spec_max_points_per_slice(
            max_workgroups as int,
            max_storage_binding_bytes as int,
            max_buffer_bytes as int,
        ),
        r <= max_workgroups * WORKGROUP_SIZE,
        r <= max_storage_binding_bytes / 32,
        r <= max_buffer_bytes / 32,
        r == max_workgroups * WORKGROUP_SIZE || r == max_storage_binding_bytes / 32 || r
            == max_buffer_bytes / 32,
{
    assert(max_storage_binding_bytes / 4 / 8 == max_storage_binding_bytes / 32) by (nonlinear_arith);
    assert(max_buffer_bytes / 4 / 8 == max_buffer_bytes / 32) by (nonlinear_arith);
    let by_workgroups: usize = max_workgroups as usize * WORKGROUP_SIZE as usize;
    let by_binding: usize = max_storage_binding_bytes / 4 / POINT_POSITION_BYTES;
    let by_buffer: usize = max_buffer_bytes / 4 / POINT_POSITION_BYTES;
    let smaller: usize = if by_workgroups <= by_binding { by_workgroups } else { by_binding };
    if smaller <= by_buffer { smaller } else { by_buffer }
}

/// The points `start..end` of the simulation, handled together.
#[derive(Clone, Copy, Debug, PartialEq, Eq, Structural)]
pub struct SliceRange {
    pub start: usize,
    pub end: usize,
}

/// `ranges` cuts `point_count` points into slices of `per_slice` points,
/// the last one holding what is left: as few slices as cover all points,
/// slice `i` starting at `i * per_slice`.
pub open spec fn is_slice_plan(ranges: Seq<SliceRange>, point_count: int, per_slice: int) -> bool {
    &&& ranges.len() * per_slice >= point_count
    &&& (ranges.len() - 1) * per_slice < point_count
    &&& forall|i: int|
        0 <= i < ranges.len() ==> {
            &&& #[trigger] ranges[i].start == i * per_slice
            &&& ranges[i].end == min_int((i + 1) * per_slice, point_count)
        }
}

/// Cuts `point_count` points into consecutive slices of at most
/// `per_slice` points each.
pub fn plan_slices(point_count: usize, per_slice: usize) -> (r: Vec<SliceRange>)
    requires
        per_slice > 0,
    ensures
        is_slice_plan(r@, point_count as int, per_slice as int),
        r@.len() == 0 <==> point_count == 0,
        r@.len() > 0 ==> r@[0].start == 0 && r@.last().end == point_count,
        forall|i: int| 0 <= i < r@.len() - 1 ==> #[trigger] r@[i].end == r@[i + 1].start,
        forall|i: int| 0 <= i < r@.len() ==> 0 < slice_len(#[trigger] r@[i]) <= per_slice,
        forall|i: int| 0 <= i < r@.len() - 1 ==> slice_len(#[trigger] r@[i]) == per_slice,
{
    let mut ranges: Vec<SliceRange> = Vec::new();
    let mut start: usize = 0;
    proof {
        assert(0 * per_slice == 0) by (nonlinear_arith);
        assert((0 - 1) * per_slice < 0) by (nonlinear_arith)
            requires
                per_slice > 0,
        ;
    }
    while start < point_count
        invariant
            per_slice > 0,
            start <= point_count,
            start < point_count ==> start == ranges.len() * per_slice,
            start == point_count ==> (ranges.len() - 1) * per_slice < point_count
                && ranges.len() * per_slice >= point_count,
            start == 0 ==> ranges.len() == 0,
            forall|i: int|
                0 <= i < ranges.len() ==> {
                    &&& #[trigger] ranges@[i].start == i * per_slice
                    &&& ranges@[i].end == min_int((i + 1) * per_slice, point_count as int)
                },
        decreases point_count - start,
    {
        let k = ranges.len();
        let remaining = point_count - start;
        let end = if remaining <= per_slice { point_count } else { start + per_slice };
        proof {
            assert((k + 1) * per_slice == k * per_slice + per_slice) by (nonlinear_arith);
            assert(k * per_slice == start);
        }
        let ghost before = ranges@;
        ranges.push(SliceRange { start, end });
        proof {
            assert(ranges@[k as int] == SliceRange { start, end });
            assert(end == min_int((k + 1) * per_slice, point_count as int));
            assert forall|i: int| 0 <= i < k implies ranges@[i] == before[i] by {}
        }
        start = end;
    }
    proof {
        if point_count == 0 {
            assert(ranges.len() == 0);
        }
        lemma_slice_plan_partitions(ranges@, point_count as int, per_slice as int);
    }
    ranges
}

/// Number of points in a slice.
pub open spec fn slice_len(r: SliceRange) -> int {
    r.end - r.start
}

/// `m` is the largest slice length in `ranges`, or 0 when there is none.
pub open spec fn is_largest_len(ranges: Seq<SliceRange>, m: int) -> bool {
    &&& forall|i: int| 0 <= i < ranges.len() ==> slice_len(#[trigger] ranges[i]) <= m
    &&& (ranges.len() == 0 ==> m == 0)
    &&& (ranges.len() > 0 ==> exists|i: int| 0 <= i < ranges.len() && slice_len(#[trigger] ranges[i]) == m)
}

/// The number of points in the largest slice; the shared index buffer is
/// sized for it.
pub fn largest_slice_len(ranges: &[SliceRange]) -> (r: usize)
    requires
        forall|i: int| 0 <= i < ranges@.len() ==> (#[trigger] ranges@[i]).start <= ranges@[i].end,
    ensures
        is_largest_len(ranges@, r as int),
{
    let mut largest: usize = 0;
    let mut i: usize = 0;
    while i < ranges.len()
        invariant
            i <= ranges@.len(),
            forall|j: int| 0 <= j < ranges@.len() ==> (#[trigger] ranges@[j]).start <= ranges@[j].end,
            forall|j: int| 0 <= j < i ==> slice_len(#[trigger] ranges@[j]) <= largest,
            i == 0 ==> largest == 0,
            i > 0 ==> exists|j: int| 0 <= j < i && slice_len(#[trigger] ranges@[j]) == largest,
        decreases ranges@.len() - i,
    {
        let len = ranges[i].end - ranges[i].start;
        if len >= largest {
            largest = len;
        }
        i = i + 1;
    }
    largest
}

/// The slices of a plan cover the points without gap or overlap: the first
/// starts at point 0, each starts where the one before ends, the last ends
/// at `point_count`, none is empty, none holds more than `per_slice` points,
/// and point `p` lies in slice `p / per_slice`.
pub proof fn lemma_slice_plan_partitions(ranges: Seq<SliceRange>, point_count: int, per_slice: int)
    requires
        per_slice > 0,
        point_count >= 0,
        is_slice_plan(ranges, point_count, per_slice),
    ensures
        ranges.len() == 0 <==> point_count == 0,
        ranges.len() > 0 ==> ranges[0].start == 0 && ranges.last().end == point_count,
        forall|i: int| 0 <= i < ranges.len() - 1 ==> #[trigger] ranges[i].end == ranges[i + 1].start,
        forall|i: int|
            0 <= i < ranges.len() ==> 0 < slice_len(#[trigger] ranges[i]) <= per_slice,
        forall|i: int| 0 <= i < ranges.len() - 1 ==> slice_len(#[trigger] ranges[i]) == per_slice,
        forall|p: int|
            0 <= p < point_count ==> {
                &&& 0 <= #[trigger] (p / per_slice) < ranges.len()
                &&& ranges[p / per_slice].start <= p < ranges[p / per_slice].end
            },
{
    let n = ranges.len() as int;
    if n == 0 {
        assert(n * per_slice == 0) by (nonlinear_arith)
            requires
                n == 0,
        ;
    } else {
        assert(ranges[0].start == 0 * per_slice);
        assert(0 * per_slice == 0) by (nonlinear_arith);
        assert(point_count > 0) by (nonlinear_arith)
            requires
                (n - 1) * per_slice < point_count,
                n >= 1,
                per_slice > 0,
        ;
        assert(ranges[n - 1].start == (n - 1) * per_slice);
        assert((n - 1 + 1) * per_slice == n * per_slice);
        assert(ranges[n - 1].end == min_int(n * per_slice, point_count));
    }
    assert forall|i: int| 0 <= i < ranges.len() - 1 implies #[trigger] ranges[i].end == ranges[i + 1].start by {
        assert(ranges[i].start == i * per_slice);
        assert(ranges[i + 1].start == (i + 1) * per_slice);
        assert((i + 1) * per_slice <= (n - 1) * per_slice) by (nonlinear_arith)
            requires
                i + 1 <= n - 1,
                per_slice > 0,
        ;
    }
    assert forall|i: int| 0 <= i < ranges.len() implies 0 < slice_len(#[trigger] ranges[i]) <= per_slice by {
        assert(ranges[i].start == i * per_slice);
        assert((i + 1) * per_slice == i * per_slice + per_slice) by (nonlinear_arith);
        assert(i * per_slice <= (n - 1) * per_slice) by (nonlinear_arith)
            requires
                i <= n - 1,
                per_slice > 0,
        ;
    }
    assert forall|i: int| 0 <= i < ranges.len() - 1 implies slice_len(#[trigger] ranges[i]) == per_slice by {
        assert(ranges[i].start == i * per_slice);
        assert((i + 1) * per_slice == i * per_slice + per_slice) by (nonlinear_arith);
        assert((i + 1) * per_slice <= (n - 1) * per_slice) by (nonlinear_arith)
            requires
                i + 1 <= n - 1,
                per_slice > 0,
        ;
    }
    assert forall|p: int| 0 <= p < point_count implies {
        &&& 0 <= #[trigger] (p / per_slice) < ranges.len()
        &&& ranges[p / per_slice].start <= p < ranges[p / per_slice].end
    } by {
        let q = p / per_slice;
        assert(q * per_slice <= p < q * per_slice + per_slice && 0 <= q) by (nonlinear_arith)
            requires
                q == p / per_slice,
                per_slice > 0,
                p >= 0,
        ;
        assert(q < n) by (nonlinear_arith)
            requires
                q * per_slice <= p,
                p < point_count,
                n * per_slice >= point_count,
                per_slice > 0,
        ;
        assert((q + 1) * per_slice == q * per_slice + per_slice) by (nonlinear_arith);
        assert(ranges[q].start == q * per_slice);
    }
}

/// In a plan for at least one point, the largest slice holds
/// `min(per_slice, point_count)` points: the first slice is a full one,
/// unless all points fit in it.
pub proof fn lemma_largest_slice_of_plan(
    ranges: Seq<SliceRange>,
    point_count: int,
    per_slice: int,
    largest: int,
)
    requires
        per_slice > 0,
        point_count >= 0,
        is_slice_plan(ranges, point_count, per_slice),
        is_largest_len(ranges, largest),
    ensures
        largest == min_int(per_slice, point_count),
{
    lemma_slice_plan_partitions(ranges, point_count, per_slice);
    if ranges.len() > 0 {
        assert(ranges[0].start == 0 * per_slice);
        assert(0 * per_slice == 0) by (nonlinear_arith);
        assert((0 + 1) * per_slice == per_slice) by (nonlinear_arith);
        assert(slice_len(ranges[0]) == min_int(per_slice, point_count));
        assert(slice_len(ranges[0]) <= largest);
        let j = choose|j: int| 0 <= j < ranges.len() && slice_len(#[trigger] ranges[j]) == largest;
        assert(slice_len(ranges[j]) <= per_slice);
        assert(ranges[j].end <= point_count);
        assert(ranges[j].start >= 0) by {
            assert(ranges[j].start == j * per_slice);
            assert(j * per_slice >= 0) by (nonlinear_arith)
                requires
                    j >= 0,
                    per_slice > 0,
            ;
        }
    }
}

/// Number of indices drawn over all slices: five per point of each.
pub open spec fn total_index_count(ranges: Seq<SliceRange>) -> int
    decreases ranges.len(),
{
    if ranges.len() == 0 {
        0
    } else {
        total_index_count(ranges.drop_last()) + 5 * slice_len(ranges.last())
    }
}

/// The index count each slice is drawn with: five per point.
pub fn slice_index_counts(ranges: &[SliceRange]) -> (r: Vec<u32>)
    requires
        forall|i: int|
            0 <= i < ranges@.len() ==> (#[trigger] ranges@[i]).start <= ranges@[i].end
                && 5 * slice_len(ranges@[i]) <= u32::MAX,
    ensures
        r@.len() == ranges@.len(),
        forall|i: int| 0 <= i < r@.len() ==> #[trigger] r@[i] == 5 * slice_len(ranges@[i]),
{
    let mut counts: Vec<u32> = Vec::with_capacity(ranges.len());
    let mut i: usize = 0;
    while i < ranges.len()
        invariant
            i <= ranges@.len(),
            counts@.len() == i,
            forall|j: int|
                0 <= j < ranges@.len() ==> (#[trigger] ranges@[j]).start <= ranges@[j].end
                    && 5 * slice_len(ranges@[j]) <= u32::MAX,
            forall|j: int| 0 <= j < i ==> #[trigger] counts@[j] == 5 * slice_len(ranges@[j]),
        decreases ranges@.len() - i,
    {
        let len = ranges[i].end - ranges[i].start;
        assert(len == slice_len(ranges@[i as int]));
        counts.push(slice_index_count(len as u32));
        i = i + 1;
    }
    counts
}

/// Over the first `j` slices of contiguous slices that start at point 0,
/// the index count is five per point up to where slice `j - 1` ends.
proof fn lemma_prefix_index_count(ranges: Seq<SliceRange>, j: int)
    requires
        1 <= j <= ranges.len(),
        ranges[0].start == 0,
        forall|i: int| 0 <= i < ranges.len() - 1 ==> #[trigger] ranges[i].end == ranges[i + 1].start,
    ensures
        total_index_count(ranges.take(j)) == 5 * ranges[j - 1].end,
    decreases j,
{
    let t = ranges.take(j);
    assert(t.drop_last() =~= ranges.take(j - 1));
    assert(t.last() == ranges[j - 1]);
    assert(total_index_count(t) == total_index_count(ranges.take(j - 1)) + 5 * slice_len(ranges[j - 1]));
    if j == 1 {
        assert(ranges.take(0) =~= Seq::<SliceRange>::empty());
    } else {
        lemma_prefix_index_count(ranges, j - 1);
        assert(ranges[j - 2].end == ranges[j - 1].start);
    }
}

/// Drawing every slice of a plan with its index count draws five indices
/// per point in all, and no slice asks for more indices than the shared
/// index buffer holds (five per point of the largest slice), so no draw
/// reads past it.
pub proof fn lemma_index_counts_cover_plan(
    ranges: Seq<SliceRange>,
    point_count: int,
    per_slice: int,
    largest: int,
)
    requires
        per_slice > 0,
        point_count >= 0,
        is_slice_plan(ranges, point_count, per_slice),
        is_largest_len(ranges, largest),
    ensures
        total_index_count(ranges) == 5 * point_count,
        forall|i: int| 0 <= i < ranges.len() ==> 5 * slice_len(#[trigger] ranges[i]) <= 5 * largest,
{
    lemma_slice_plan_partitions(ranges, point_count, per_slice);
    if ranges.len() > 0 {
        lemma_prefix_index_count(ranges, ranges.len() as int);
        assert(ranges.take(ranges.len() as int) =~= ranges);
    }
}

/// Index value that ends a triangle strip and starts the next one.
pub const STRIP_RESTART_INDEX: u32 = 0xffff_ffff;

/// The five indices that draw point `i`: its four corners as one triangle
/// strip, then a strip restart.
pub open spec fn point_indices_are(entry: [u32; 5], i: int) -> bool {
    &&& entry[0] == 4 * i
    &&& entry[1] == 4 * i + 1
    &&& entry[2] == 4 * i + 2
    &&& entry[3] == 4 * i + 3
    &&& entry[4] == STRIP_RESTART_INDEX
}

/// Contents of the index buffer shared by all slices: enough entries to
/// draw the largest slice, entry `i` drawing point `i`.
pub fn build_index_data(largest_point_count: usize) -> (r: Vec<[u32; 5]>)
    requires
        4 * largest_point_count <= u32::MAX + 1,
    ensures
        r@.len() == largest_point_count,
        forall|i: int| 0 <= i < r@.len() ==> point_indices_are(#[trigger] r@[i], i),
{
    let mut indices: Vec<[u32; 5]> = Vec::with_capacity(largest_point_count);
    let n = largest_point_count as u32;
    let mut i: u32 = 0;
    while i < n
        invariant
            n == largest_point_count,
            4 * n <= u32::MAX + 1,
            i <= n,
            indices@.len() == i,
            forall|j: int| 0 <= j < i ==> point_indices_are(#[trigger] indices@[j], j),
        decreases n - i,
    {
        let base = 4 * i;
        indices.push([base, base + 1, base + 2, base + 3, STRIP_RESTART_INDEX]);
        i = i + 1;
    }
    indices
}

/// The shared index buffer serves every slice: a slice of `n` points draws
/// the first `n` entries, which exist when the buffer was built for the
/// largest slice, and those entries only name vertices `0..4n`, the ones
/// the slice's vertex buffer holds.
pub proof fn lemma_index_data_fits_every_slice(
    ranges: Seq<SliceRange>,
    largest: int,
    data: Seq<[u32; 5]>,
)
    requires
        is_largest_len(ranges, largest),
        data.len() == largest,
        forall|i: int| 0 <= i < data.len() ==> point_indices_are(#[trigger] data[i], i),
    ensures
        forall|s: int| 0 <= s < ranges.len() ==> slice_len(#[trigger] ranges[s]) <= data.len(),
        forall|s: int, i: int, k: int|
            0 <= s < ranges.len() && 0 <= i < slice_len(ranges[s]) && 0 <= k < 4
                ==> (#[trigger] data[i][k]) < 4 * slice_len(#[trigger] ranges[s]),
{
    assert forall|s: int, i: int, k: int|
        0 <= s < ranges.len() && 0 <= i < slice_len(ranges[s]) && 0 <= k < 4
            implies (#[trigger] data[i][k]) < 4 * slice_len(#[trigger] ranges[s]) by {
        assert(slice_len(ranges[s]) <= largest);
        assert(point_indices_are(data[i], i));
    }
}

/// Word `k` of entry `i` read back from `bytes`, where each entry takes
/// twenty bytes and each word four, least significant byte first when
/// `little` holds and most significant first otherwise.
pub open spec fn index_word(bytes: Seq<u8>, i: int, k: int, little: bool) -> int {
    let at = 20 * i + 4 * k;
    if little {
        bytes[at] + 256 * bytes[at + 1] + 65536 * bytes[at + 2] + 16777216 * bytes[at + 3]
    } else {
        bytes[at + 3] + 256 * bytes[at + 2] + 65536 * bytes[at + 1] + 16777216 * bytes[at]
    }
}

/// `bytes` are the entries of `data`, one after the other, every word in
/// the byte order that `little` names.
pub open spec fn encodes_entries(bytes: Seq<u8>, data: Seq<[u32; 5]>, little: bool) -> bool {
    &&& bytes.len() == 20 * data.len()
    &&& forall|i: int, k: int|
        0 <= i < data.len() && 0 <= k < 5 ==> index_word(bytes, i, k, little) == #[trigger] data[i][k]
}

/// Index `k` of the entry that draws point `i`: its corners `4i .. 4i+3`,
/// then a strip restart.
pub open spec fn index_value(i: int, k: int) -> int {
    if k < 4 { 4 * i + k } else { STRIP_RESTART_INDEX as int }
}

/// `bytes` hold the shared index buffer for `point_count` points, every
/// word in the byte order that `little` names.
pub open spec fn encodes_index_buffer(bytes: Seq<u8>, point_count: int, little: bool) -> bool {
    &&& bytes.len() == 20 * point_count
    &&& forall|i: int, k: int|
        0 <= i < point_count && 0 <= k < 5 ==> #[trigger] index_word(bytes, i, k, little) == index_value(i, k)
}

/// Index buffers built on the same machine for different point counts
/// agree, word for word, on the points they both cover: every word reads
/// back, in the machine's byte order, as the index that draws that corner.
pub proof fn lemma_index_buffers_agree(a: Seq<u8>, n: int, b: Seq<u8>, m: int)
    requires
        encodes_index_buffer(a, n, vstd::endian::endianness() == vstd::endian::Endian::Little),
        encodes_index_buffer(b, m, vstd::endian::endianness() == vstd::endian::Endian::Little),
    ensures
        ({
            let little = vstd::endian::endianness() == vstd::endian::Endian::Little;
            forall|i: int, k: int|
                0 <= i < n && i < m && 0 <= k < 5 ==> #[trigger] index_word(a, i, k, little)
                    == index_word(b, i, k, little) == index_value(i, k)
        }),
{
}

/// The bytes of index entries as the GPU reads them: each index as four
/// bytes in the machine's byte order, entry after entry.
///
/// Trusted: calls `bytemuck::cast_slice`, which views the entries' memory
/// as bytes, and copies the result. Stated: twenty bytes per entry, every
/// word laid out in the executing machine's byte order (vstd's
/// `endianness()`), the same for every call. Not stated: which order that
/// is, as it is the machine's own.
#[verifier::external_body]
fn index_data_bytes(data: &[[u32; 5]]) -> (r: Vec<u8>)
    ensures
        encodes_entries(r@, data@, vstd::endian::endianness() == vstd::endian::Endian::Little),
        encodes_entries(r@, data@, true) || encodes_entries(r@, data@, false),
{
    bytemuck::cast_slice::<[u32; 5], u8>(data).to_vec()
}

/// The contents of the shared index buffer, as bytes to upload: for each
/// point `i` below `largest_point_count`, the words `4i, 4i+1, 4i+2, 4i+3`
/// and a strip restart, in the executing machine's byte order.
pub fn index_buffer_bytes(largest_point_count: usize) -> (r: Vec<u8>)
    requires
        4 * largest_point_count <= u32::MAX + 1,
    ensures
        r@.len() == 20 * largest_point_count,
        exists|little: bool| encodes_index_buffer(r@, largest_point_count as int, little),
        encodes_index_buffer(
            r@,
            largest_point_count as int,
            vstd::endian::endianness() == vstd::endian::Endian::Little,
        ),
{
    let data = build_index_data(largest_point_count);
    let r = index_data_bytes(data.as_slice());
    proof {
        let little = vstd::endian::endianness() == vstd::endian::Endian::Little;
        assert(encodes_entries(r@, data@, little));
        assert forall|i: int, k: int| 0 <= i < largest_point_count && 0 <= k < 5 implies
            #[trigger] index_word(r@, i, k, little) == index_value(i, k) by {
            assert(point_indices_are(data@[i], i));
            assert(index_word(r@, i, k, little) == data@[i][k]);
        }
        assert(encodes_index_buffer(r@, largest_point_count as int, little));
    }
    r
}

} // verus!
