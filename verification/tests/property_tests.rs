use rangex::basic_range::{BasicRange, IteratorOps};
use rangex::indexed_range::IndexedRange;

fn collect_range<T>(r: BasicRange<T>) -> Vec<T>
where
    T: IteratorOps,
{
    let mut out: Vec<T> = Vec::new();
    let mut it = r.into_iter();
    while let Some(value) = it.next() {
        out.push(value);
    }
    out
}

#[test]
fn full_domain_u8_round_trip() {
    // ascending: every u8 value exactly once, in order
    let up: Vec<u8> = collect_range(BasicRange::<u8>::new(0, 255, 1, true));
    assert_eq!(up.len(), 256);
    for (i, v) in up.iter().enumerate() {
        assert_eq!(*v as usize, i);
    }

    // descending: the same values backward
    let down: Vec<u8> = collect_range(BasicRange::<u8>::new(255, 0, -1, true));
    assert_eq!(down.len(), 256);
    for (i, v) in down.iter().enumerate() {
        assert_eq!(*v as usize, 255 - i);
    }
}

#[test]
fn full_domain_i8_round_trip() {
    let up: Vec<i8> = collect_range(BasicRange::<i8>::new(-128, 127, 1, true));
    assert_eq!(up.len(), 256);
    for (i, v) in up.iter().enumerate() {
        assert_eq!(*v as i32, -128 + i as i32);
    }

    let down: Vec<i8> = collect_range(BasicRange::<i8>::new(127, -128, -1, true));
    assert_eq!(down.len(), 256);
    for (i, v) in down.iter().enumerate() {
        assert_eq!(*v as i32, 127 - i as i32);
    }
}

#[test]
fn misaligned_step_exact_values() {
    assert_eq!(collect_range(BasicRange::<i32>::new(0, 5, 2, false)), vec![0, 2, 4]);
    assert_eq!(collect_range(BasicRange::<i32>::new(0, 5, 2, true)), vec![0, 2, 4]);
    assert_eq!(collect_range(BasicRange::<i32>::new(5, 1, -2, true)), vec![5, 3, 1]);
    assert_eq!(collect_range(BasicRange::<i32>::new(5, 1, -2, false)), vec![5, 3]);
}

#[test]
fn single_point_range() {
    assert_eq!(collect_range(BasicRange::<i32>::new(0, 0, 2, true)), vec![0]);
    assert_eq!(collect_range(BasicRange::<i32>::new(0, 0, 2, false)), Vec::<i32>::new());
}

#[test]
fn direction_inconsistent_is_empty() {
    assert_eq!(collect_range(BasicRange::<i32>::new(3, 0, 1, false)), Vec::<i32>::new());
    assert_eq!(collect_range(BasicRange::<i32>::new(3, 0, 1, true)), Vec::<i32>::new());
    assert_eq!(collect_range(BasicRange::<u16>::new(0, 9, -3, false)), Vec::<u16>::new());
    assert_eq!(collect_range(BasicRange::<u16>::new(0, 9, -3, true)), Vec::<u16>::new());
    assert_eq!(collect_range(BasicRange::<i64>::new(-5, -9, 4, true)), Vec::<i64>::new());
}

#[test]
fn count_matches_steps_formula() {
    // distance 9, step magnitude 3: on step, so 3 exclusive and 4 inclusive
    assert_eq!(collect_range(BasicRange::<i32>::new(0, 9, 3, false)).len(), 3);
    assert_eq!(collect_range(BasicRange::<i32>::new(0, 9, 3, true)).len(), 4);
    // distance 10, step magnitude 3: misaligned, 4 values either way
    assert_eq!(collect_range(BasicRange::<i32>::new(0, 10, 3, false)).len(), 4);
    assert_eq!(collect_range(BasicRange::<i32>::new(0, 10, 3, true)).len(), 4);
}

#[test]
fn sentinel_wraps_past_type_maximum() {
    // the last value is the type's maximum: the stopping sentinel lies
    // one step beyond it and must wrap without disturbing the output
    let top: Vec<u64> = collect_range(
        BasicRange::<u64>::new(u64::MAX - 4, u64::MAX, 2, true),
    );
    assert_eq!(top, vec![u64::MAX - 4, u64::MAX - 2, u64::MAX]);

    let bottom: Vec<i16> = collect_range(BasicRange::<i16>::new(-32763, i16::MIN, -5, true));
    assert_eq!(bottom, vec![-32763, -32768]);
}

#[test]
fn widest_types_small_ranges() {
    let big: u128 = 1u128 << 100;
    assert_eq!(
        collect_range(BasicRange::<u128>::new(big, big + 7, 3, false)),
        vec![big, big + 3, big + 6],
    );
    assert_eq!(
        collect_range(BasicRange::<i128>::new(-3, 3, 3, true)),
        vec![-3, 0, 3],
    );
    assert_eq!(
        collect_range(BasicRange::<usize>::new(10, 2, -4, false)),
        vec![10, 6],
    );
    assert_eq!(
        collect_range(BasicRange::<isize>::new(-2, 2, 1, false)),
        vec![-2, -1, 0, 1],
    );
}

#[test]
fn indexed_pairs_track_positions() {
    let r = IndexedRange::<i32>::new(0, 5, 2, false);
    let mut pairs: Vec<(usize, i32)> = Vec::new();
    let mut it = r.into_iter();
    while let Some(p) = it.next() {
        pairs.push(p);
    }
    assert_eq!(pairs, vec![(0, 0), (1, 2), (2, 4)]);

    let r = IndexedRange::<u8>::new(250, 255, 1, true);
    let mut pairs: Vec<(usize, u8)> = Vec::new();
    let mut it = r.into_iter();
    while let Some(p) = it.next() {
        pairs.push(p);
    }
    assert_eq!(pairs, vec![(0, 250), (1, 251), (2, 252), (3, 253), (4, 254), (5, 255)]);
}

#[test]
fn into_vec_matches_iteration() {
    let drained: Vec<i32> = BasicRange::<i32>::new(7, -2, -3, true).into_vec();
    assert_eq!(drained, vec![7, 4, 1, -2]);

    let pairs: Vec<(usize, i64)> = IndexedRange::<i64>::new(-9, 0, 4, false).into_vec();
    assert_eq!(pairs, vec![(0, -9), (1, -5), (2, -1)]);
}

#[test]
fn backward_full_width_steps() {
    // the most negative step leaves a misaligned remainder over the
    // full domain, so the exclusive form also emits the final value
    let min_step: Vec<u8> = collect_range(BasicRange::<u8>::new(255, 0, i8::MIN, false));
    assert_eq!(min_step, vec![255, 127]);
    // a step spanning the whole distance exactly: on step, so only the
    // inclusive form reaches the far end
    let one_hop: Vec<i16> = collect_range(BasicRange::<i16>::new(255, 0, -255, false));
    assert_eq!(one_hop, vec![255]);
    let two_hops: Vec<i16> = collect_range(BasicRange::<i16>::new(255, 0, -255, true));
    assert_eq!(two_hops, vec![255, 0]);
}
