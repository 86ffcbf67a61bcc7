use vstd::prelude::*;

use crate::ternary::Ternary;

verus! {

/// A training sample: the feature values and the class.
pub type Sample = (Vec<Ternary>, usize);

/// The number of samples that satisfy `p`.
pub open spec fn count_if(data: Seq<Sample>, p: spec_fn(Sample) -> bool) -> nat
    decreases data.len(),
{
    if data.len() == 0 {
        0
    } else {
        count_if(data.drop_last(), p) + if p(data.last()) { 1nat } else { 0nat }
    }
}

/// The number of samples of class `c`.
pub open spec fn class_count(data: Seq<Sample>, c: int) -> nat {
    count_if(data, |s: Sample| s.1 == c)
}

/// Whether the sample is of class `c` and has a feature at position `fi`.
pub open spec fn has_feature(s: Sample, fi: int, c: int) -> bool {
    s.1 == c && 0 <= fi < s.0@.len()
}

/// The number of samples of class `c` whose feature at position `fi` is `t`.
pub open spec fn feature_count(data: Seq<Sample>, fi: int, c: int, t: Ternary) -> nat {
    count_if(data, has_value(fi, c, t))
}

/// Whether a sample is of class `c` and has the value `t` at position `fi`.
pub open spec fn has_value(fi: int, c: int, t: Ternary) -> spec_fn(Sample) -> bool {
    |s: Sample| has_feature(s, fi, c) && s.0@[fi] == t
}

/// The number of samples of class `c` that have a feature at position `fi`.
pub open spec fn observed_count(data: Seq<Sample>, fi: int, c: int) -> nat {
    count_if(data, |s: Sample| has_feature(s, fi, c))
}

/// The number of samples whose class is below `m`.
pub open spec fn count_below(data: Seq<Sample>, m: int) -> nat {
    count_if(data, |s: Sample| s.1 < m)
}

/// The sum of the first `n` entries of `s`.
pub open spec fn sum_prefix(s: Seq<usize>, n: int) -> int
    decreases n,
{
    if n <= 0 {
        0
    } else {
        sum_prefix(s, n - 1) + s[n - 1]
    }
}

/// What a training set is fit for: each class is below `n_classes`, and each
/// sample has at most `n_features` features.
pub open spec fn well_shaped(data: Seq<Sample>, n_features: int, n_classes: int) -> bool {
    forall|k: int|
        0 <= k < data.len() ==> #[trigger] data[k].1 < n_classes && data[k].0@.len() <= n_features
}

/// The counts that training gathers from a data set, with Laplace smoothing
/// on the feature counts: each starts at one.
pub struct TrainingCounts {
    /// Number of samples per class.
    pub class_counts: Vec<usize>,
    /// For each feature position and class, the smoothed counts of -1, 0, +1.
    pub feature_counts: Vec<Vec<[usize; 3]>>,
    /// Number of samples.
    pub total: usize,
}

impl TrainingCounts {
    /// The counts hold what `data` shows for `n_features` positions and
    /// `n_classes` classes.
    pub open spec fn counts_of(self, data: Seq<Sample>, n_features: int, n_classes: int) -> bool {
        &&& self.class_counts@.len() == n_classes
        &&& forall|c: int| 0 <= c < n_classes ==> #[trigger] self.class_counts@[c] == class_count(data, c)
        &&& self.feature_counts@.len() == n_features
        &&& forall|fi: int| 0 <= fi < n_features ==> (#[trigger] self.feature_counts@[fi])@.len() == n_classes
        &&& forall|fi: int, c: int, t: Ternary|
            0 <= fi < n_features && 0 <= c < n_classes ==> #[trigger] self.feature_counts@[fi]@[c]@[t.slot()]
                == 1 + feature_count(data, fi, c, t)
        &&& self.total == sum_prefix(self.class_counts@, n_classes)
    }
}


/// A count over a data set is at most the number of samples.
proof fn lemma_counts_bounded(data: Seq<Sample>, fi: int, c: int, t: Ternary)
    ensures
        class_count(data, c) <= data.len(),
        feature_count(data, fi, c, t) <= data.len(),
        count_below(data, c) <= data.len(),
    decreases data.len(),
{
    if data.len() > 0 {
        lemma_counts_bounded(data.drop_last(), fi, c, t);
    }
}

/// Counting the samples below `m + 1` counts those below `m` and those of class `m`.
proof fn lemma_count_below_step(data: Seq<Sample>, m: int)
    ensures
        count_below(data, m + 1) == count_below(data, m) + class_count(data, m),
    decreases data.len(),
{
    if data.len() > 0 {
        lemma_count_below_step(data.drop_last(), m);
    }
}

/// Where every class is below `m`, every sample is counted below `m`.
proof fn lemma_count_below_all(data: Seq<Sample>, n_features: int, m: int)
    requires
        well_shaped(data, n_features, m),
    ensures
        count_below(data, m) == data.len(),
    decreases data.len(),
{
    if data.len() > 0 {
        assert(data.last().1 < m) by {
            assert(data[data.len() - 1].1 < m);
        }
        assert forall|k: int| 0 <= k < data.drop_last().len() implies #[trigger] data.drop_last()[k].1 < m
            && data.drop_last()[k].0@.len() <= n_features by {
            assert(data[k].1 < m);
        }
        lemma_count_below_all(data.drop_last(), n_features, m);
    }
}

/// Summing per-class counts for the classes below `m` counts the samples below `m`.
proof fn lemma_sum_class_counts(data: Seq<Sample>, s: Seq<usize>, m: int)
    requires
        0 <= m <= s.len(),
        forall|c: int| 0 <= c < m ==> #[trigger] s[c] == class_count(data, c),
    ensures
        sum_prefix(s, m) == count_below(data, m),
    decreases m,
{
    if m == 0 {
        assert(count_below(data, 0) == 0) by {
            lemma_count_below_zero(data);
        }
    } else {
        lemma_sum_class_counts(data, s, m - 1);
        lemma_count_below_step(data, m - 1);
    }
}

proof fn lemma_count_below_zero(data: Seq<Sample>)
    ensures
        count_below(data, 0) == 0,
    decreases data.len(),
{
    if data.len() > 0 {
        lemma_count_below_zero(data.drop_last());
    }
}

/// The smoothed counts of one feature position and class, bumped for `t`.
fn bump(cell: [usize; 3], t: Ternary) -> (r: [usize; 3])
    requires
        cell@[t.slot()] < usize::MAX,
    ensures
        forall|u: Ternary| #[trigger] r@[u.slot()] == cell@[u.slot()] + if u == t { 1int } else { 0int },
{
    match t {
        Ternary::Neg => [cell[0] + 1, cell[1], cell[2]],
        Ternary::Zero => [cell[0], cell[1] + 1, cell[2]],
        Ternary::Pos => [cell[0], cell[1], cell[2] + 1],
    }
}

impl TrainingCounts {
    /// Counts the samples of each class and, with Laplace smoothing, the
    /// values of each feature position per class.
    pub fn tally(data: &[Sample], n_features: usize, n_classes: usize) -> (r: TrainingCounts)
        requires
            well_shaped(data@, n_features as int, n_classes as int),
            data@.len() < usize::MAX,
        ensures
            r.counts_of(data@, n_features as int, n_classes as int),
            r.total == data@.len(),
    {
        let mut class_counts: Vec<usize> = Vec::new();
        let mut c: usize = 0;
        while c < n_classes
            invariant
                c <= n_classes,
                class_counts@.len() == c,
                forall|j: int| 0 <= j < c ==> #[trigger] class_counts@[j] == 0,
            decreases n_classes - c,
        {
            class_counts.push(0);
            c = c + 1;
        }
        let mut feature_counts: Vec<Vec<[usize; 3]>> = Vec::new();
        let mut fi: usize = 0;
        while fi < n_features
            invariant
                fi <= n_features,
                feature_counts@.len() == fi,
                forall|a: int| 0 <= a < fi ==> (#[trigger] feature_counts@[a])@.len() == n_classes,
                forall|a: int, b: int, j: int|
                    0 <= a < fi && 0 <= b < n_classes && 0 <= j < 3 ==> #[trigger] feature_counts@[a]@[b]@[j] == 1,
            decreases n_features - fi,
        {
            let mut row: Vec<[usize; 3]> = Vec::new();
            let mut b: usize = 0;
            while b < n_classes
                invariant
                    b <= n_classes,
                    row@.len() == b,
                    forall|x: int, j: int| 0 <= x < b && 0 <= j < 3 ==> #[trigger] row@[x]@[j] == 1,
                decreases n_classes - b,
            {
                row.push([1, 1, 1]);
                b = b + 1;
            }
            feature_counts.push(row);
            fi = fi + 1;
        }
        let ghost d = data@;
        let mut k: usize = 0;
        while k < data.len()
            invariant
                k <= d.len(),
                d == data@,
                well_shaped(d, n_features as int, n_classes as int),
                d.len() < usize::MAX,
                class_counts@.len() == n_classes,
                forall|c: int| 0 <= c < n_classes ==> #[trigger] class_counts@[c] == class_count(d.take(k as int), c),
                feature_counts@.len() == n_features,
                forall|a: int| 0 <= a < n_features ==> (#[trigger] feature_counts@[a])@.len() == n_classes,
                forall|a: int, b: int, t: Ternary|
                    0 <= a < n_features && 0 <= b < n_classes ==> #[trigger] feature_counts@[a]@[b]@[t.slot()]
                        == 1 + feature_count(d.take(k as int), a, b, t),
            decreases d.len() - k,
        {
            let sample = &data[k];
            let class = sample.1;
            let features = &sample.0;
            assert(d[k as int].1 < n_classes && d[k as int].0@.len() <= n_features);
            proof {
                lemma_counts_bounded(d.take(k as int), 0, class as int, Ternary::Neg);
            }
            class_counts.set(class, class_counts[class] + 1);
            let mut f: usize = 0;
            while f < features.len()
                invariant
                    k < d.len(),
                    d == data@,
                    features@ == d[k as int].0@,
                    class == d[k as int].1,
                    class < n_classes,
                    f <= features@.len(),
                    features@.len() <= n_features,
                    d.len() < usize::MAX,
                    feature_counts@.len() == n_features,
                    forall|a: int| 0 <= a < n_features ==> (#[trigger] feature_counts@[a])@.len() == n_classes,
                    forall|a: int, b: int, t: Ternary|
                        0 <= a < n_features && 0 <= b < n_classes ==> #[trigger] feature_counts@[a]@[b]@[t.slot()]
                            == 1 + feature_count(d.take(k as int), a, b, t) + if a < f && b == class
                            && features@[a] == t {
                            1int
                        } else {
                            0int
                        },
                decreases features@.len() - f,
            {
                let t = features[f];
                proof {
                    lemma_counts_bounded(d.take(k as int), f as int, class as int, t);
                }
                let cell = feature_counts[f][class];
                assert(cell@[t.slot()] == 1 + feature_count(d.take(k as int), f as int, class as int, t));
                let bumped = bump(cell, t);
                feature_counts[f].set(class, bumped);
                assert forall|a: int, b: int, u: Ternary|
                    0 <= a < n_features && 0 <= b < n_classes implies #[trigger] feature_counts@[a]@[b]@[u.slot()]
                        == 1 + feature_count(d.take(k as int), a, b, u) + if a < f + 1 && b == class
                        && features@[a] == u {
                        1int
                    } else {
                        0int
                    } by {
                    if a == f && b == class {
                        assert(bumped@[u.slot()] == cell@[u.slot()] + if u == t { 1int } else { 0int });
                    }
                }
                f = f + 1;
            }
            proof {
                let dk = d.take(k as int + 1);
                assert(dk.drop_last() =~= d.take(k as int));
                assert(dk.last() == d[k as int]);
                assert forall|c: int| 0 <= c < n_classes implies #[trigger] class_counts@[c] == class_count(dk, c) by {}
                assert forall|a: int, b: int, t: Ternary|
                    0 <= a < n_features && 0 <= b < n_classes implies #[trigger] feature_counts@[a]@[b]@[t.slot()]
                        == 1 + feature_count(dk, a, b, t) by {}
            }
            k = k + 1;
        }
        assert(d.take(d.len() as int) =~= d);
        proof {
            lemma_count_below_all(d, n_features as int, n_classes as int);
        }
        let mut total: usize = 0;
        let mut c: usize = 0;
        while c < n_classes
            invariant
                c <= n_classes,
                class_counts@.len() == n_classes,
                forall|j: int| 0 <= j < n_classes ==> #[trigger] class_counts@[j] == class_count(d, j),
                total == sum_prefix(class_counts@, c as int),
                count_below(d, n_classes as int) == d.len(),
                d.len() < usize::MAX,
            decreases n_classes - c,
        {
            proof {
                lemma_sum_class_counts(d, class_counts@, c as int + 1);
                lemma_count_below_mono(d, c as int + 1, n_classes as int);
            }
            total = total + class_counts[c];
            c = c + 1;
        }
        proof {
            lemma_sum_class_counts(d, class_counts@, n_classes as int);
        }
        TrainingCounts { class_counts, feature_counts, total }
    }
}

/// Counting below a larger bound counts at least as many samples.
proof fn lemma_count_below_mono(data: Seq<Sample>, m1: int, m2: int)
    requires
        m1 <= m2,
    ensures
        count_below(data, m1) <= count_below(data, m2),
    decreases data.len(),
{
    if data.len() > 0 {
        lemma_count_below_mono(data.drop_last(), m1, m2);
    }
}


/// Each sample of class `c` with a feature at `fi` has exactly one of the
/// three values there, and no sample of another class is counted.
proof fn lemma_feature_counts_split(data: Seq<Sample>, fi: int, c: int)
    ensures
        feature_count(data, fi, c, Ternary::Neg) + feature_count(data, fi, c, Ternary::Zero)
            + feature_count(data, fi, c, Ternary::Pos) == observed_count(data, fi, c),
        observed_count(data, fi, c) <= class_count(data, c),
    decreases data.len(),
{
    if data.len() > 0 {
        lemma_feature_counts_split(data.drop_last(), fi, c);
    }
}

/// The class counts gathered from a well-shaped data set split its samples
/// among the classes: they add up to the number of samples.
pub proof fn lemma_class_counts_total(r: TrainingCounts, data: Seq<Sample>, n_features: int, n_classes: int)
    requires
        0 <= n_classes,
        well_shaped(data, n_features, n_classes),
        r.counts_of(data, n_features, n_classes),
    ensures
        sum_prefix(r.class_counts@, n_classes) == data.len(),
        r.total == data.len(),
{
    lemma_sum_class_counts(data, r.class_counts@, n_classes);
    lemma_count_below_all(data, n_features, n_classes);
}

/// The smoothed counts of one feature position and class are each at least
/// one, and add up to three more than the samples of that class that have a
/// feature there, which are at most the samples of that class.
pub proof fn lemma_feature_counts_total(
    r: TrainingCounts,
    data: Seq<Sample>,
    n_features: int,
    n_classes: int,
    fi: int,
    c: int,
)
    requires
        r.counts_of(data, n_features, n_classes),
        0 <= fi < n_features,
        0 <= c < n_classes,
    ensures
        forall|t: Ternary| #[trigger] r.feature_counts@[fi]@[c]@[t.slot()] >= 1,
        r.feature_counts@[fi]@[c]@[0] + r.feature_counts@[fi]@[c]@[1] + r.feature_counts@[fi]@[c]@[2]
            == 3 + observed_count(data, fi, c),
        observed_count(data, fi, c) <= r.class_counts@[c],
{
    lemma_feature_counts_split(data, fi, c);
    assert(r.feature_counts@[fi]@[c]@[Ternary::Neg.slot()] == 1 + feature_count(data, fi, c, Ternary::Neg));
    assert(r.feature_counts@[fi]@[c]@[Ternary::Zero.slot()] == 1 + feature_count(data, fi, c, Ternary::Zero));
    assert(r.feature_counts@[fi]@[c]@[Ternary::Pos.slot()] == 1 + feature_count(data, fi, c, Ternary::Pos));
    assert(r.class_counts@[c] == class_count(data, c));
}


/// Taking out the sample at `i` takes it out of the count.
proof fn lemma_count_if_remove(data: Seq<Sample>, p: spec_fn(Sample) -> bool, i: int)
    requires
        0 <= i < data.len(),
    ensures
        count_if(data, p) == count_if(data.remove(i), p) + if p(data[i]) { 1nat } else { 0nat },
    decreases data.len(),
{
    if i == data.len() - 1 {
        assert(data.remove(i) =~= data.drop_last());
    } else {
        lemma_count_if_remove(data.drop_last(), p, i);
        let r = data.remove(i);
        assert(r.len() > 0);
        assert(r.drop_last() =~= data.drop_last().remove(i));
        assert(r.last() == data.last());
    }
}

/// Two sequences of samples that hold the same samples, as many times each,
/// have the same count.
proof fn lemma_count_if_multiset(d1: Seq<Sample>, d2: Seq<Sample>, p: spec_fn(Sample) -> bool)
    requires
        d1.to_multiset() == d2.to_multiset(),
    ensures
        count_if(d1, p) == count_if(d2, p),
    decreases d1.len(),
{
    broadcast use vstd::seq_lib::group_to_multiset_ensures;

    if d1.len() == 0 {
        assert(d2.to_multiset().len() == 0);
        assert(d2.len() == 0);
    } else {
        let x = d1.last();
        let rest = d1.drop_last();
        assert(rest.push(x) =~= d1);
        assert(d1.to_multiset() =~= rest.to_multiset().insert(x));
        assert(d2.to_multiset().count(x) > 0);
        assert(d2.contains(x));
        let i = choose|i: int| 0 <= i < d2.len() && d2[i] == x;
        assert(d2.remove(i).to_multiset() =~= d2.to_multiset().remove(x));
        assert(rest.to_multiset() =~= d2.remove(i).to_multiset());
        lemma_count_if_multiset(rest, d2.remove(i), p);
        lemma_count_if_remove(d2, p, i);
    }
}

/// The counts gathered from a data set depend only on which samples it holds,
/// as many times each, and not on their order: two data sets that are
/// reorderings of each other give the same counts.
pub proof fn lemma_counts_ignore_order(
    r1: TrainingCounts,
    r2: TrainingCounts,
    d1: Seq<Sample>,
    d2: Seq<Sample>,
    n_features: int,
    n_classes: int,
)
    requires
        d1.to_multiset() == d2.to_multiset(),
        r1.counts_of(d1, n_features, n_classes),
        r2.counts_of(d2, n_features, n_classes),
    ensures
        r1.class_counts@ == r2.class_counts@,
        r1.total == r2.total,
        r1.feature_counts@.len() == r2.feature_counts@.len(),
        forall|fi: int, c: int|
            0 <= fi < n_features && 0 <= c < n_classes ==> #[trigger] r1.feature_counts@[fi]@[c]@
                == r2.feature_counts@[fi]@[c]@,
{
    assert forall|c: int| 0 <= c < n_classes implies #[trigger] r1.class_counts@[c] == r2.class_counts@[c] by {
        lemma_count_if_multiset(d1, d2, |s: Sample| s.1 == c);
    }
    assert(r1.class_counts@ =~= r2.class_counts@);
    assert forall|fi: int, c: int|
        0 <= fi < n_features && 0 <= c < n_classes implies #[trigger] r1.feature_counts@[fi]@[c]@
            == r2.feature_counts@[fi]@[c]@ by {
        assert forall|j: int| 0 <= j < 3 implies r1.feature_counts@[fi]@[c]@[j] == r2.feature_counts@[fi]@[c]@[j] by {
            let t = if j == 0 { Ternary::Neg } else if j == 1 { Ternary::Zero } else { Ternary::Pos };
            assert(t.slot() == j);
            lemma_count_if_multiset(d1, d2, has_value(fi, c, t));
            assert(r1.feature_counts@[fi]@[c]@[t.slot()] == 1 + feature_count(d1, fi, c, t));
            assert(r2.feature_counts@[fi]@[c]@[t.slot()] == 1 + feature_count(d2, fi, c, t));
        }
        assert(r1.feature_counts@[fi]@[c]@ =~= r2.feature_counts@[fi]@[c]@);
    }
}


/// Counts over no samples: no sample of any class, and the smoothing alone,
/// one, for every value at every feature position and class.
pub proof fn lemma_counts_of_no_data(r: TrainingCounts, n_features: int, n_classes: int)
    requires
        r.counts_of(Seq::<Sample>::empty(), n_features, n_classes),
    ensures
        forall|c: int| 0 <= c < n_classes ==> #[trigger] r.class_counts@[c] == 0,
        forall|fi: int, c: int, j: int|
            0 <= fi < n_features && 0 <= c < n_classes && 0 <= j < 3 ==> #[trigger] r.feature_counts@[fi]@[c]@[j]
                == 1,
        r.total == 0,
{
    assert forall|fi: int, c: int, j: int|
        0 <= fi < n_features && 0 <= c < n_classes && 0 <= j < 3 implies #[trigger] r.feature_counts@[fi]@[c]@[j]
            == 1 by {
        let t = if j == 0 { Ternary::Neg } else if j == 1 { Ternary::Zero } else { Ternary::Pos };
        assert(t.slot() == j);
        assert(r.feature_counts@[fi]@[c]@[t.slot()] == 1 + feature_count(Seq::<Sample>::empty(), fi, c, t));
    }
    assert(sum_prefix(r.class_counts@, n_classes) == 0) by {
        lemma_sum_class_counts(Seq::<Sample>::empty(), r.class_counts@, n_classes);
    }
}

/// Adding one sample `(f, k)` to the data adds one to the count of class `k`
/// and, at each position `i` where the sample has a feature, one to the count
/// of its own value `f[i]` for class `k`; every other count stays as it was.
pub proof fn lemma_counts_after_one_more_sample(
    before: TrainingCounts,
    after: TrainingCounts,
    data: Seq<Sample>,
    sample: Sample,
    n_features: int,
    n_classes: int,
)
    requires
        0 <= sample.1 < n_classes,
        sample.0@.len() <= n_features,
        before.counts_of(data, n_features, n_classes),
        after.counts_of(data.push(sample), n_features, n_classes),
    ensures
        forall|c: int|
            0 <= c < n_classes ==> #[trigger] after.class_counts@[c] == before.class_counts@[c] + if c
                == sample.1 {
                1int
            } else {
                0int
            },
        forall|i: int, c: int, t: Ternary|
            0 <= i < n_features && 0 <= c < n_classes ==> #[trigger] after.feature_counts@[i]@[c]@[t.slot()]
                == before.feature_counts@[i]@[c]@[t.slot()] + if c == sample.1 && i < sample.0@.len()
                && sample.0@[i] == t {
                1int
            } else {
                0int
            },
        after.total == before.total + 1,
{
    let d2 = data.push(sample);
    assert(d2.drop_last() =~= data);
    assert(d2.last() == sample);
    assert forall|c: int| 0 <= c < n_classes implies #[trigger] after.class_counts@[c]
        == before.class_counts@[c] + if c == sample.1 { 1int } else { 0int } by {
        assert(after.class_counts@[c] == class_count(d2, c));
        assert(before.class_counts@[c] == class_count(data, c));
    }
    assert forall|i: int, c: int, t: Ternary| 0 <= i < n_features && 0 <= c < n_classes implies
        #[trigger] after.feature_counts@[i]@[c]@[t.slot()] == before.feature_counts@[i]@[c]@[t.slot()]
            + if c == sample.1 && i < sample.0@.len() && sample.0@[i] == t {
            1int
        } else {
            0int
        } by {
        assert(after.feature_counts@[i]@[c]@[t.slot()] == 1 + feature_count(d2, i, c, t));
        assert(before.feature_counts@[i]@[c]@[t.slot()] == 1 + feature_count(data, i, c, t));
    }
    lemma_sum_class_counts(data, before.class_counts@, n_classes);
    lemma_sum_class_counts(d2, after.class_counts@, n_classes);
    assert(count_below(d2, n_classes) == count_below(data, n_classes) + 1);
}

} // verus!
