use ternary_bayesian::{Ternary, CPT};

/// A distribution over -1, 0, +1 written as (p_neg, p_zero, p_pos), normalized.
#[derive(Debug, Clone, Copy, PartialEq)]
struct Dist {
    p_neg: f64,
    p_zero: f64,
    p_pos: f64,
}

fn dist(p_neg: f64, p_zero: f64, p_pos: f64) -> Option<Dist> {
    if p_neg < 0.0 || p_zero < 0.0 || p_pos < 0.0 {
        return None;
    }
    let sum = p_neg + p_zero + p_pos;
    if sum <= 0.0 {
        return None;
    }
    Some(Dist { p_neg: p_neg / sum, p_zero: p_zero / sum, p_pos: p_pos / sum })
}

#[test]
fn test_cpt() {
    let mut cpt = CPT::new();
    cpt.set(Ternary::Neg, dist(0.7, 0.2, 0.1).unwrap());
    assert!(cpt.get(Ternary::Neg).unwrap().p_neg > 0.5);
    assert!(cpt.get(Ternary::Pos).is_none());
}

#[test]
fn fresh_table_is_empty() {
    let cpt: CPT<u32> = CPT::new();
    for t in Ternary::values() {
        assert_eq!(cpt.get(t), None);
    }
}

#[test]
fn set_overwrites_and_leaves_other_parents_alone() {
    let mut cpt = CPT::new();
    cpt.set(Ternary::Zero, 10u32);
    cpt.set(Ternary::Pos, 20u32);
    cpt.set(Ternary::Zero, 30u32);
    assert_eq!(cpt.get(Ternary::Neg), None);
    assert_eq!(cpt.get(Ternary::Zero), Some(&30));
    assert_eq!(cpt.get(Ternary::Pos), Some(&20));
}

#[test]
fn every_parent_value_can_hold_an_entry() {
    let mut cpt = CPT::new();
    for t in Ternary::values() {
        cpt.set(t, t.to_i8());
    }
    for t in Ternary::values() {
        assert_eq!(cpt.get(t), Some(&t.to_i8()));
    }
}
