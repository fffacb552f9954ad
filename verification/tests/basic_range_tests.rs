use rangex::basic_range::{BasicRange, IteratorOps};

fn verify_range<T>(expect: Vec<T>, r: BasicRange<T>)
where
    T: IteratorOps + PartialEq + std::fmt::Debug,
{
    let mut index: usize = 0;
    let mut it = r.into_iter();
    while let Some(value) = it.next() {
        assert_eq!(value, expect[index]);
        index += 1;
    }
    assert_eq!(index, expect.len());
}

fn verify_std_range<T, R>(expect: Vec<T>, r: R)
where
    T: IteratorOps + PartialEq + std::fmt::Debug,
    R: IntoIterator<Item = T>,
{
    let mut index: usize = 0;
    for value in r {
        assert_eq!(value, expect[index]);
        index += 1;
    }
    assert_eq!(index, expect.len());
}

#[test]
fn basic_range_basic_1() {
    let expect: Vec<i32> = vec![0, 1, 2];
    verify_range(expect, BasicRange::new(0, 3, 1, false));

    let expect: Vec<i32> = vec![0, 1, 2];
    verify_range(expect, BasicRange::new(0, 2, 1, true));
}

#[test]
fn basic_range_basic_2() {
    let expect: Vec<i32> = vec![0, 1, 2];
    verify_std_range(expect, 0..3);

    let expect: Vec<i32> = vec![0, 1, 2];
    verify_std_range(expect, 0..=2);

    let expect: Vec<i32> = vec![3, 2, 1];
    verify_range(expect, BasicRange::new(3, 0, -1, false));

    let expect: Vec<i32> = vec![3, 2, 1];
    verify_range(expect, BasicRange::<i32>::new(3, 0, -1, false));

    let expect: Vec<i32> = vec![3, 2, 1];
    verify_range(expect, BasicRange::<i32>::new(3, 1, -1, true));
}

#[test]
fn std_notation() {
    let mut s: i32 = 0;
    for v in 3..0 {
        s += v;
    }
    assert_eq!(s, 0);

    let mut s: i32 = 0;
    let elements: Vec<i32> = vec![10, 20, 30, 40, 50, 60, 70, 80, 90, 100];
    for (index, element) in elements.iter().enumerate() {
        assert!(index < elements.len());
        assert_eq!(*element, elements[index]);
        s += *element;
    }
    assert_eq!(s, elements.iter().sum());

    let mut s: f64 = 0.0;
    let elements: Vec<f64> = vec![10.0, 20.0, 30.0, 40.0, 50.0, 60.0, 70.0, 80.0, 90.0, 100.0];
    for (index, element) in elements.iter().enumerate() {
        assert!(index < elements.len());
        assert_eq!(*element, elements[index]);
        s += *element;
    }
    assert_eq!(s, elements.iter().sum());
}

#[test]
fn basic_range_void_range_prop() {
    for inclusive in 0i32..=1i32 {
        let expect_none: Vec<i32> = vec![];
        let expect_once: Vec<i32> = vec![0];
        verify_range(
            if inclusive > 0 { expect_once } else { expect_none },
            BasicRange::new(0, 0, -2, inclusive > 0),
        );

        let expect_none: Vec<i32> = vec![];
        let expect_once: Vec<i32> = vec![0];
        verify_range(
            if inclusive > 0 { expect_once } else { expect_none },
            BasicRange::new(0, 0, 2, inclusive > 0),
        );

        let expect: Vec<i32> = vec![];
        verify_range(expect, BasicRange::new(3, 0, 1, inclusive > 0));

        let expect: Vec<i32> = vec![];
        verify_range(expect, BasicRange::new(0, 1, -1, inclusive > 0));
    }
}

#[test]
fn basic_range_not_on_step_1() {
    for inclusive in 0i32..=1i32 {
        let expect: Vec<i32> = vec![0, 2, 4];
        verify_range(expect, BasicRange::new(0, 5, 2, inclusive > 0));
    }
}

#[test]
fn basic_range_not_on_step_2() {
    for inclusive in 0i32..=1i32 {
        let expect: Vec<i32> = vec![0, 2, 4];
        verify_range(
            expect,
            if 0 == inclusive {
                BasicRange::<i32>::new(0, 5, 2, false)
            } else {
                BasicRange::<i32>::new(0, 5, 2, true)
            },
        );
    }
}

#[test]
fn basic_range_not_on_step_3() {
    for inclusive in 0i32..=1i32 {
        let expect: Vec<i32> = vec![5, 3];
        verify_range(expect, BasicRange::new(5, 2, -2, inclusive > 0));
    }
    for inclusive in 0i32..=1i32 {
        let expect: Vec<u32> = vec![5, 3];
        verify_range(expect, BasicRange::<u32>::new(5, 2, -2, inclusive > 0));
    }
}

#[test]
fn basic_range_not_on_step_4() {
    for inclusive in 0i32..=1i32 {
        let expect: Vec<i32> = vec![5, 3];
        verify_range(
            expect,
            if inclusive > 0 {
                BasicRange::<i32>::new(5, 2, -2, true)
            } else {
                BasicRange::<i32>::new(5, 2, -2, false)
            },
        );
    }
}
