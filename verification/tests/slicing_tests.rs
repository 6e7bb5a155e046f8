use point_sim::slicing::{
    build_index_data, index_buffer_bytes, largest_slice_len, max_points_per_slice, plan_slices,
    slice_index_counts, SliceRange, STRIP_RESTART_INDEX,
};

#[test]
fn max_points_per_slice_takes_the_tightest_limit() {
    // default downlevel limits: 65535 workgroups, 128 MiB bindings, 256 MiB buffers
    assert_eq!(max_points_per_slice(65535, 134_217_728, 268_435_456), 4_194_304);
    // workgroups bound it
    assert_eq!(max_points_per_slice(2, 1 << 30, 1 << 30), 512);
    // buffer size bounds it
    assert_eq!(max_points_per_slice(65535, 1 << 30, 3200), 100);
    // division rounds down
    assert_eq!(max_points_per_slice(65535, 63, 1 << 30), 1);
    assert_eq!(max_points_per_slice(65535, 31, 1 << 30), 0);
}

#[test]
fn plan_slices_cuts_evenly_with_a_short_last_slice() {
    let plan = plan_slices(10, 4);
    assert_eq!(
        plan,
        vec![
            SliceRange { start: 0, end: 4 },
            SliceRange { start: 4, end: 8 },
            SliceRange { start: 8, end: 10 },
        ]
    );
}

#[test]
fn plan_slices_exact_multiple() {
    let plan = plan_slices(8, 4);
    assert_eq!(plan, vec![SliceRange { start: 0, end: 4 }, SliceRange { start: 4, end: 8 }]);
}

#[test]
fn plan_slices_single_and_empty() {
    assert_eq!(plan_slices(3, 1_000_000), vec![SliceRange { start: 0, end: 3 }]);
    assert!(plan_slices(0, 7).is_empty());
    assert_eq!(plan_slices(1_000_000, 4_194_304), vec![SliceRange { start: 0, end: 1_000_000 }]);
}

#[test]
fn plan_slices_covers_every_point_once() {
    let count = 1003;
    let per = 100;
    let plan = plan_slices(count, per);
    assert_eq!(plan.len(), 11);
    let mut next = 0;
    for r in &plan {
        assert_eq!(r.start, next);
        assert!(r.end > r.start && r.end - r.start <= per);
        next = r.end;
    }
    assert_eq!(next, count);
}

#[test]
fn largest_slice_len_of_plans() {
    assert_eq!(largest_slice_len(&plan_slices(10, 4)), 4);
    assert_eq!(largest_slice_len(&plan_slices(3, 4)), 3);
    assert_eq!(largest_slice_len(&plan_slices(0, 4)), 0);
    let uneven = [SliceRange { start: 0, end: 2 }, SliceRange { start: 2, end: 9 }, SliceRange { start: 9, end: 10 }];
    assert_eq!(largest_slice_len(&uneven), 7);
}

#[test]
fn build_index_data_draws_each_point_as_a_strip() {
    assert!(build_index_data(0).is_empty());
    let data = build_index_data(3);
    assert_eq!(
        data,
        vec![
            [0, 1, 2, 3, STRIP_RESTART_INDEX],
            [4, 5, 6, 7, STRIP_RESTART_INDEX],
            [8, 9, 10, 11, STRIP_RESTART_INDEX],
        ]
    );
    assert_eq!(STRIP_RESTART_INDEX, 0xffff_ffff);
}

#[test]
fn build_index_data_at_the_largest_count() {
    // 2^30 points still fit 32-bit indices; check only the end of a smaller run
    let data = build_index_data(1000);
    assert_eq!(data[999], [3996, 3997, 3998, 3999, 0xffff_ffff]);
}

#[test]
fn index_buffer_bytes_are_the_entries_in_memory_order() {
    let bytes = index_buffer_bytes(2);
    assert_eq!(bytes.len(), 40);
    let mut expected = Vec::new();
    for word in [0u32, 1, 2, 3, 0xffff_ffff, 4, 5, 6, 7, 0xffff_ffff] {
        expected.extend_from_slice(&word.to_ne_bytes());
    }
    assert_eq!(bytes, expected);
    assert!(index_buffer_bytes(0).is_empty());
}

#[test]
fn shared_index_data_serves_every_slice() {
    let plan = plan_slices(10, 4);
    let largest = largest_slice_len(&plan);
    let data = build_index_data(largest);
    for range in &plan {
        let n = range.end - range.start;
        assert!(n <= data.len());
        for entry in &data[..n] {
            for k in 0..4 {
                assert!((entry[k] as usize) < 4 * n);
            }
        }
    }
}

#[test]
fn slice_index_counts_sum_to_five_per_point() {
    let plan = plan_slices(1003, 100);
    let counts = slice_index_counts(&plan);
    assert_eq!(counts.len(), 11);
    assert!(counts[..10].iter().all(|c| *c == 500));
    assert_eq!(counts[10], 15);
    assert_eq!(counts.iter().map(|c| *c as u64).sum::<u64>(), 5 * 1003);
    let largest = largest_slice_len(&plan);
    let index_words = index_buffer_bytes(largest).len() / 4;
    assert!(counts.iter().all(|c| (*c as usize) <= index_words));
    assert!(slice_index_counts(&plan_slices(0, 4)).is_empty());
}
