use rangex::basic_range::{IteratorOps, StepOps};
use rangex::indexed_range::IndexedRange;

#[test]
fn std_u8_exclusive_edge_can_through_full_u8() {
    let start: u8 = 0;
    let end: u8 = 255;
    let mut index: usize = 0;
    for n in start..=end {
        assert!(start <= n);
        assert!(n <= end);
        index += 1;
    }
    assert_eq!(index, 1 + end as usize - start as usize);

    let min_i8: i8 = -128;
    let max_i8: i8 = 127;
    index = 0;
    for i in min_i8..=max_i8 {
        assert!(min_i8 <= i);
        assert!(i <= max_i8);
        index += 1;
    }
    // the count is computed in the wider signed width, so it cannot
    // overflow the narrow one
    assert_eq!(index, (1 + max_i8 as i16 - min_i8 as i16) as usize);
}

fn int_edge_with_step<T>(inclusive: bool, step: T::Step)
where
    T: IteratorOps,
    T::Step: IteratorOps + PartialEq + PartialOrd,
{
    let int_min: T = T::min();
    let int_max: T = T::max();
    let range_size: T::ExtendedStep = int_max.to_extended_step().minus(
        int_min.to_extended_step(),
    );
    let zero_step: T::Step = <T::Step as StepOps>::zero();
    let zero_ext: T::ExtendedStep = T::ExtendedStep::zero();
    let ext_step: T::ExtendedStep = T::extend_step(step);
    let (steps, on_step): (T::ExtendedStep, bool) = if step > zero_step {
        (
            range_size.quotient(ext_step).floor(),
            range_size.rem(ext_step).eq_value(zero_ext),
        )
    } else {
        let abs_ext: T::ExtendedStep = zero_ext.minus(ext_step);
        (
            range_size.quotient(abs_ext).floor(),
            range_size.rem(abs_ext).eq_value(zero_ext),
        )
    };

    // a positive step counts up; a negative one counts down; the most
    // negative step can only count down
    let min_step: T::Step = <T::Step as IteratorOps>::min();
    if step != min_step {
        let range = IndexedRange::<T>::new(int_min, int_max, step, inclusive);
        let mut index: usize = 0;
        let mut it = range.into_iter();
        while let Some((i, _)) = it.next() {
            assert_eq!(i, index);
            index += 1;
            if inclusive || !on_step {
                assert!(i <= steps.to_usize());
            } else {
                assert!(i < steps.to_usize());
            }
        }

        if inclusive || !on_step {
            assert_eq!(steps.to_usize() + 1, index);
        } else {
            assert_eq!(steps.to_usize(), index);
        }
    }

    // backward
    {
        let negative_step: T::Step = if step < zero_step {
            step
        } else {
            zero_step.minus(step)
        };
        let range = IndexedRange::<T>::new(int_max, int_min, negative_step, inclusive);
        let mut index: usize = 0;
        let mut it = range.into_iter();
        while let Some((i, _)) = it.next() {
            assert_eq!(i, index);
            index += 1;
            if inclusive || !on_step {
                assert!(i <= steps.to_usize() + 2);
            } else {
                assert!(i < steps.to_usize());
            }
        }

        if inclusive || !on_step {
            assert_eq!(steps.to_usize() + 1, index);
        } else {
            assert_eq!(steps.to_usize(), index);
        }
    }
}

#[test]
fn test_i8_exclusive_edge() {
    int_edge_with_step::<i8>(false, 1);
}

#[test]
fn test_i8_exclusive_edge_not_on_step() {
    int_edge_with_step::<i8>(false, 3);
}

#[test]
fn test_i8_exclusive_edge_on_step() {
    int_edge_with_step::<i8>(false, 5);
}

#[test]
fn test_i8_exclusive_edge_min_step() {
    int_edge_with_step::<i8>(false, i8::MIN);
}

#[test]
fn test_i8_exclusive_edge_max_step() {
    int_edge_with_step::<i8>(false, i8::MAX);
}

#[test]
fn test_i8_inclusive_edge() {
    int_edge_with_step::<i8>(true, 1);
}

#[test]
fn test_i8_inclusive_edge_not_on_step() {
    int_edge_with_step::<i8>(true, 3);
}

#[test]
fn test_i8_inclusive_edge_on_step() {
    int_edge_with_step::<i8>(true, 5);
}

#[test]
fn test_i8_inclusive_edge_min_step() {
    int_edge_with_step::<i8>(true, i8::MIN);
}

#[test]
fn test_i8_inclusive_edge_max_step() {
    int_edge_with_step::<i8>(true, i8::MAX);
}

#[test]
fn test_u8_exclusive_edge() {
    int_edge_with_step::<u8>(false, 1);
}

#[test]
fn test_u8_exclusive_edge_not_on_step() {
    int_edge_with_step::<u8>(false, 3);
}

#[test]
fn test_u8_exclusive_edge_on_step() {
    int_edge_with_step::<u8>(false, 5);
}

#[test]
fn test_u8_exclusive_edge_min_step() {
    int_edge_with_step::<u8>(false, i8::MIN);
}

#[test]
fn test_u8_exclusive_edge_max_step() {
    int_edge_with_step::<u8>(false, i8::MAX);
}

#[test]
fn test_u8_inclusive_edge() {
    int_edge_with_step::<u8>(true, 1);
}

#[test]
fn test_u8_inclusive_edge_not_on_step() {
    int_edge_with_step::<u8>(true, 3);
}

#[test]
fn test_u8_inclusive_edge_on_step() {
    int_edge_with_step::<u8>(true, 5);
}

#[test]
fn test_u8_inclusive_edge_min_step() {
    int_edge_with_step::<u8>(true, i8::MIN);
}

#[test]
fn test_u8_inclusive_edge_max_step() {
    int_edge_with_step::<u8>(true, i8::MAX);
}

#[test]
fn test_i16_exclusive_edge() {
    int_edge_with_step::<i16>(false, 1);
}

#[test]
fn test_i16_exclusive_edge_not_on_step() {
    int_edge_with_step::<i16>(false, 3);
}

#[test]
fn test_i16_exclusive_edge_on_step() {
    int_edge_with_step::<i16>(false, 5);
}

#[test]
fn test_i16_exclusive_edge_min_step() {
    int_edge_with_step::<i16>(false, i16::MIN);
}

#[test]
fn test_i16_exclusive_edge_max_step() {
    int_edge_with_step::<i16>(false, i16::MAX);
}

#[test]
fn test_i16_inclusive_edge() {
    int_edge_with_step::<i16>(true, 1);
}

#[test]
fn test_i16_inclusive_edge_not_on_step() {
    int_edge_with_step::<i16>(true, 3);
}

#[test]
fn test_i16_inclusive_edge_on_step() {
    int_edge_with_step::<i16>(true, 5);
}

#[test]
fn test_i16_inclusive_edge_min_step() {
    int_edge_with_step::<i16>(true, i16::MIN);
}

#[test]
fn test_i16_inclusive_edge_max_step() {
    int_edge_with_step::<i16>(true, i16::MAX);
}

#[test]
fn test_u16_exclusive_edge() {
    int_edge_with_step::<u16>(false, 1);
}

#[test]
fn test_u16_exclusive_edge_not_on_step() {
    int_edge_with_step::<u16>(false, 3);
}

#[test]
fn test_u16_exclusive_edge_on_step() {
    int_edge_with_step::<u16>(false, 5);
}

#[test]
fn test_u16_exclusive_edge_min_step() {
    int_edge_with_step::<u16>(false, i16::MIN);
}

#[test]
fn test_u16_exclusive_edge_max_step() {
    int_edge_with_step::<u16>(false, i16::MAX);
}

#[test]
fn test_u16_inclusive_edge() {
    int_edge_with_step::<u16>(true, 1);
}

#[test]
fn test_u16_inclusive_edge_not_on_step() {
    int_edge_with_step::<u16>(true, 3);
}

#[test]
fn test_u16_inclusive_edge_on_step() {
    int_edge_with_step::<u16>(true, 5);
}

#[test]
fn test_u16_inclusive_edge_min_step() {
    int_edge_with_step::<u16>(true, i16::MIN);
}

#[test]
fn test_u16_inclusive_edge_max_step() {
    int_edge_with_step::<u16>(true, i16::MAX);
}

#[test]
fn test_i32_exclusive_edge() {
    int_edge_with_step::<i32>(false, 1 + i16::MAX as i32 - i16::MIN as i32);
}

#[test]
fn test_i32_exclusive_edge_not_on_step() {
    int_edge_with_step::<i32>(false, 31 + i16::MAX as i32 - i16::MIN as i32);
}

#[test]
fn test_i32_exclusive_edge_on_step() {
    int_edge_with_step::<i32>(false, 5 + 1 + i16::MAX as i32 - i16::MIN as i32);
}

#[test]
fn test_i32_exclusive_edge_min_step() {
    int_edge_with_step::<i32>(false, i32::MIN);
}

#[test]
fn test_i32_exclusive_edge_max_step() {
    int_edge_with_step::<i32>(false, i32::MAX);
}

#[test]
fn test_i32_inclusive_edge() {
    int_edge_with_step::<i32>(true, 1 + i16::MAX as i32 - i16::MIN as i32);
}

#[test]
fn test_i32_inclusive_edge_not_on_step() {
    int_edge_with_step::<i32>(true, 31 + i16::MAX as i32 - i16::MIN as i32);
}

#[test]
fn test_i32_inclusive_edge_on_step() {
    int_edge_with_step::<i32>(true, 5 + 1 + i16::MAX as i32 - i16::MIN as i32);
}

#[test]
fn test_i32_inclusive_edge_min_step() {
    int_edge_with_step::<i32>(true, i32::MIN);
}

#[test]
fn test_i32_inclusive_edge_max_step() {
    int_edge_with_step::<i32>(true, i32::MAX);
}

#[test]
fn test_u32_exclusive_edge() {
    int_edge_with_step::<u32>(false, 1 + i16::MAX as i32 - i16::MIN as i32);
}

#[test]
fn test_u32_exclusive_edge_not_on_step() {
    int_edge_with_step::<u32>(false, 31 + i16::MAX as i32 - i16::MIN as i32);
}

#[test]
fn test_u32_exclusive_edge_on_step() {
    int_edge_with_step::<u32>(false, 5 + 1 + i16::MAX as i32 - i16::MIN as i32);
}

#[test]
fn test_u32_exclusive_edge_min_step() {
    int_edge_with_step::<u32>(false, i32::MIN);
}

#[test]
fn test_u32_exclusive_edge_max_step() {
    int_edge_with_step::<u32>(false, i32::MAX);
}

#[test]
fn test_u32_inclusive_edge() {
    int_edge_with_step::<u32>(true, 1 + i16::MAX as i32 - i16::MIN as i32);
}

#[test]
fn test_u32_inclusive_edge_not_on_step() {
    int_edge_with_step::<u32>(true, 31 + i16::MAX as i32 - i16::MIN as i32);
}

#[test]
fn test_u32_inclusive_edge_on_step() {
    int_edge_with_step::<u32>(true, 5 + 1 + i16::MAX as i32 - i16::MIN as i32);
}
