use ternary_bayesian::{Ternary, TrainingCounts};

fn sample_data() -> Vec<(Vec<Ternary>, usize)> {
    vec![
        (vec![Ternary::Neg, Ternary::Neg], 0),
        (vec![Ternary::Neg, Ternary::Zero], 0),
        (vec![Ternary::Pos, Ternary::Pos], 1),
        (vec![Ternary::Pos, Ternary::Zero], 1),
        (vec![Ternary::Zero, Ternary::Zero], 2),
    ]
}

#[test]
fn tally_counts_classes_and_smoothed_features() {
    let data = sample_data();
    let counts = TrainingCounts::tally(&data, 2, 3);
    assert_eq!(counts.class_counts, vec![2, 2, 1]);
    assert_eq!(counts.total, 5);
    assert_eq!(counts.feature_counts, vec![
        vec![[3, 1, 1], [1, 1, 3], [1, 2, 1]],
        vec![[2, 2, 1], [1, 2, 2], [1, 2, 1]],
    ]);
}

#[test]
fn tally_of_no_data_holds_only_the_smoothing() {
    let data: Vec<(Vec<Ternary>, usize)> = Vec::new();
    let counts = TrainingCounts::tally(&data, 3, 2);
    assert_eq!(counts.class_counts, vec![0, 0]);
    assert_eq!(counts.total, 0);
    assert_eq!(counts.feature_counts, vec![vec![[1, 1, 1]; 2]; 3]);
}

#[test]
fn tally_counts_only_the_features_a_sample_has() {
    let data = vec![
        (vec![Ternary::Pos], 1),
        (vec![], 0),
        (vec![Ternary::Neg, Ternary::Pos, Ternary::Zero], 1),
    ];
    let counts = TrainingCounts::tally(&data, 3, 2);
    assert_eq!(counts.class_counts, vec![1, 2]);
    assert_eq!(counts.total, 3);
    assert_eq!(counts.feature_counts[0], vec![[1, 1, 1], [2, 1, 2]]);
    assert_eq!(counts.feature_counts[1], vec![[1, 1, 1], [1, 1, 2]]);
    assert_eq!(counts.feature_counts[2], vec![[1, 1, 1], [1, 2, 1]]);
}

#[test]
fn tally_with_no_classes_or_features() {
    let data: Vec<(Vec<Ternary>, usize)> = Vec::new();
    let counts = TrainingCounts::tally(&data, 0, 0);
    assert!(counts.class_counts.is_empty());
    assert!(counts.feature_counts.is_empty());
    assert_eq!(counts.total, 0);
}

#[test]
fn smoothed_counts_sum_to_three_more_than_the_observations() {
    let data = sample_data();
    let counts = TrainingCounts::tally(&data, 2, 3);
    let class_sum: usize = counts.class_counts.iter().sum();
    assert_eq!(class_sum, data.len());
    for fi in 0..2 {
        for c in 0..3 {
            let cell = counts.feature_counts[fi][c];
            assert_eq!(cell.iter().sum::<usize>(), 3 + counts.class_counts[c]);
        }
    }
}

#[test]
fn tally_ignores_the_order_of_the_samples() {
    let data = sample_data();
    let mut reordered = data.clone();
    reordered.reverse();
    reordered.swap(0, 2);
    let a = TrainingCounts::tally(&data, 2, 3);
    let b = TrainingCounts::tally(&reordered, 2, 3);
    assert_eq!(a.class_counts, b.class_counts);
    assert_eq!(a.feature_counts, b.feature_counts);
    assert_eq!(a.total, b.total);
}
