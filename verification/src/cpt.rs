use vstd::prelude::*;

use crate::ternary::{all_values, Ternary};

verus! {

/// Conditional probability table for a ternary variable given a parent: for
/// each value of the parent, at most one entry (the distribution of the child).
///
/// The table has one slot per parent value, so a parent value is never mapped
/// twice and a lookup is a match on the value.
#[derive(Debug, Clone)]
pub struct CPT<D> {
    neg: Option<D>,
    zero: Option<D>,
    pos: Option<D>,
}

impl<D> CPT<D> {
    /// The entry stored for the parent value `parent`.
    pub closed spec fn entry(&self, parent: Ternary) -> Option<D> {
        match parent {
            Ternary::Neg => self.neg,
            Ternary::Zero => self.zero,
            Ternary::Pos => self.pos,
        }
    }
}

impl<D> View for CPT<D> {
    type V = Map<Ternary, D>;

    /// The table as a map from parent values to entries.
    closed spec fn view(&self) -> Map<Ternary, D> {
        Map::new(|t: Ternary| self.entry(t) is Some, |t: Ternary| self.entry(t).unwrap())
    }
}

impl<D> CPT<D> {
    pub fn new() -> (r: Self)
        ensures
            r@ == Map::<Ternary, D>::empty(),
    {
        let r = CPT { neg: None, zero: None, pos: None };
        assert(r@ =~= Map::<Ternary, D>::empty());
        r
    }

    pub fn set(&mut self, parent: Ternary, dist: D)
        ensures
            final(self)@ == old(self)@.insert(parent, dist),
    {
        match parent {
            Ternary::Neg => self.neg = Some(dist),
            Ternary::Zero => self.zero = Some(dist),
            Ternary::Pos => self.pos = Some(dist),
        }
        assert(self@ =~= old(self)@.insert(parent, dist));
    }

    pub fn get(&self, parent: Ternary) -> (r: Option<&D>)
        ensures
            r == (if self@.dom().contains(parent) { Some(&self@[parent]) } else { None }),
    {
        match parent {
            Ternary::Neg => self.neg.as_ref(),
            Ternary::Zero => self.zero.as_ref(),
            Ternary::Pos => self.pos.as_ref(),
        }
    }
}


/// After `set(parent, dist)`, looking up `parent` gives `dist`, and every
/// other parent value is looked up as before.
pub proof fn lemma_get_after_set<D>(before: CPT<D>, after: CPT<D>, parent: Ternary, dist: D, other: Ternary)
    requires
        after@ == before@.insert(parent, dist),
    ensures
        after@.dom().contains(parent),
        after@[parent] == dist,
        other != parent ==> (after@.dom().contains(other) <==> before@.dom().contains(other)),
        other != parent && before@.dom().contains(other) ==> after@[other] == before@[other],
{
}

/// A fresh table holds no entry.
pub proof fn lemma_new_is_empty<D>(table: CPT<D>, parent: Ternary)
    requires
        table@ == Map::<Ternary, D>::empty(),
    ensures
        !table@.dom().contains(parent),
{
}

/// A table holds at most one entry for each of the three parent values.
pub proof fn lemma_table_size<D>(table: CPT<D>)
    ensures
        table@.dom().subset_of(all_values().to_set()),
        table@.dom().finite(),
        table@.dom().len() <= 3,
{
    let all = all_values().to_set();
    assert(all =~= set![Ternary::Neg, Ternary::Zero, Ternary::Pos]);
    assert forall|t: Ternary| table@.dom().contains(t) implies all.contains(t) by {
        assert(all_values()[t.slot()] == t);
    }
    assert(set![Ternary::Neg, Ternary::Zero, Ternary::Pos].len() == 3);
    vstd::set_lib::lemma_len_subset(table@.dom(), all);
}

} // verus!
