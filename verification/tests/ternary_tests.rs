use ternary_bayesian::Ternary;

#[test]
fn test_ternary_to_i8() {
    assert_eq!(Ternary::Neg.to_i8(), -1);
    assert_eq!(Ternary::Zero.to_i8(), 0);
    assert_eq!(Ternary::Pos.to_i8(), 1);
}

#[test]
fn test_ternary_from_i8() {
    assert_eq!(Ternary::from_i8(-1), Some(Ternary::Neg));
    assert_eq!(Ternary::from_i8(0), Some(Ternary::Zero));
    assert_eq!(Ternary::from_i8(1), Some(Ternary::Pos));
    assert_eq!(Ternary::from_i8(2), None);
}

#[test]
fn from_i8_rejects_everything_outside_the_three_values() {
    for v in i8::MIN..=i8::MAX {
        let decoded = Ternary::from_i8(v);
        assert_eq!(decoded.is_some(), (-1..=1).contains(&v));
    }
}

#[test]
fn round_trip_through_i8() {
    for t in Ternary::values() {
        assert_eq!(Ternary::from_i8(t.to_i8()), Some(t));
    }
    for v in -1i8..=1 {
        assert_eq!(Ternary::from_i8(v).unwrap().to_i8(), v);
    }
}

#[test]
fn values_are_listed_once_in_ascending_order() {
    let vs = Ternary::values();
    assert_eq!(vs, [Ternary::Neg, Ternary::Zero, Ternary::Pos]);
    assert_eq!(vs.map(|t| t.to_i8()), [-1, 0, 1]);
}

#[test]
fn index_is_the_position_in_values() {
    for (i, t) in Ternary::values().iter().enumerate() {
        assert_eq!(t.index(), i);
    }
    assert_eq!(Ternary::Neg.index(), 0);
    assert_eq!(Ternary::Zero.index(), 1);
    assert_eq!(Ternary::Pos.index(), 2);
}
