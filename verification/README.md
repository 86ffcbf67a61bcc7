# ternary_bayesian

Bayesian inference for ternary variables on {-1, 0, +1}.

- `src/` is the verified library (Verus): the ternary values and their
  encoding as integers (`ternary.rs`), conditional probability tables keyed by
  a parent's value (`cpt.rs`), and the counting that trains a naive Bayes
  classifier, with Laplace smoothing (`naive_bayes.rs`). Each module states
  its laws as public proof functions.
- `app/` holds the probability arithmetic, which is floating point:
  `TernaryDist`, the Bayesian network and its belief propagation,
  variational inference, and the naive Bayes classifier, which trains from the
  library's counts.
- `tests/` runs the library on concrete values.
