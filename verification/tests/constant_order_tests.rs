use rust_tools::consts::Constant;
use std::cmp::Ordering;

fn s(t: &str) -> Constant {
    Constant::Str(t.to_string())
}

#[test]
fn constant_equality() {
    assert!(s("abc").eq(&s("abc")));
    assert!(!s("abc").eq(&s("abd")));
    assert!(Constant::Binary(vec![1, 2]).eq(&Constant::Binary(vec![1, 2])));
    assert!(!Constant::Binary(vec![1, 2]).eq(&Constant::Binary(vec![1])));
    assert!(!Constant::Int(1).eq(&Constant::Bool(true)));
    let v = Constant::Vec(vec![Constant::Int(1), Constant::Char('a')]);
    assert!(v.eq(&Constant::Vec(vec![Constant::Int(1), Constant::Char('a')])));
    assert!(!v.eq(&Constant::Tuple(vec![Constant::Int(1), Constant::Char('a')])));
    let r = Constant::Repeat(Box::new(Constant::Int(0)), 4);
    assert!(r.eq(&Constant::Repeat(Box::new(Constant::Int(0)), 4)));
    assert!(!r.eq(&Constant::Repeat(Box::new(Constant::Int(0)), 5)));
}

#[test]
fn constant_order_within_kinds() {
    assert_eq!(s("abc").partial_cmp(&s("abd")), Some(Ordering::Less));
    assert_eq!(s("ab").partial_cmp(&s("abc")), Some(Ordering::Less));
    assert_eq!(s("b").partial_cmp(&s("abc")), Some(Ordering::Greater));
    assert_eq!(s("é").partial_cmp(&s("z")), Some(Ordering::Greater));
    assert_eq!(Constant::Int(3).partial_cmp(&Constant::Int(3)), Some(Ordering::Equal));
    assert_eq!(Constant::Bool(false).partial_cmp(&Constant::Bool(true)), Some(Ordering::Less));
    assert_eq!(Constant::Char('b').partial_cmp(&Constant::Char('a')), Some(Ordering::Greater));
    let a = Constant::Tuple(vec![Constant::Int(1), Constant::Int(2)]);
    let b = Constant::Tuple(vec![Constant::Int(1), Constant::Int(3)]);
    assert_eq!(a.partial_cmp(&b), Some(Ordering::Less));
    let short = Constant::Vec(vec![Constant::Int(1)]);
    let long = Constant::Vec(vec![Constant::Int(1), Constant::Int(0)]);
    assert_eq!(short.partial_cmp(&long), Some(Ordering::Less));
    let r1 = Constant::Repeat(Box::new(Constant::Int(0)), 2);
    let r2 = Constant::Repeat(Box::new(Constant::Int(0)), 5);
    assert_eq!(r2.partial_cmp(&r1), Some(Ordering::Greater));
}

#[test]
fn constant_order_across_kinds() {
    assert_eq!(Constant::Int(1).partial_cmp(&Constant::Bool(true)), None);
    assert_eq!(Constant::Binary(vec![1]).partial_cmp(&Constant::Binary(vec![1])), None);
    let mixed_a = Constant::Vec(vec![Constant::Int(1), Constant::Int(5)]);
    let mixed_b = Constant::Vec(vec![Constant::Bool(true), Constant::Int(0)]);
    assert_eq!(mixed_a.partial_cmp(&mixed_b), None);
    let decided = Constant::Vec(vec![Constant::Int(1), Constant::Bool(true)]);
    let decided_b = Constant::Vec(vec![Constant::Int(2), Constant::Int(0)]);
    assert_eq!(decided.partial_cmp(&decided_b), Some(Ordering::Less));
}

#[test]
fn constant_order_swaps_and_equal_means_equal() {
    let pairs = vec![
        (s("abc"), s("abd")),
        (Constant::Int(7), Constant::Int(7)),
        (Constant::Tuple(vec![Constant::Int(1), s("x")]), Constant::Tuple(vec![Constant::Int(1), s("y")])),
        (Constant::Repeat(Box::new(Constant::Bool(true)), 2), Constant::Repeat(Box::new(Constant::Bool(false)), 9)),
        (Constant::Int(1), Constant::Char('a')),
    ];
    for (a, b) in pairs.iter() {
        let ab = a.partial_cmp(b);
        let ba = b.partial_cmp(a);
        assert_eq!(ba, ab.map(|o| o.reverse()));
        if ab == Some(Ordering::Equal) {
            assert!(a.eq(b));
        }
    }
}
