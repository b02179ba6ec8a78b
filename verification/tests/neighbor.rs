//! Nearest-neighbour queries and the three models, with the arithmetic done
//! here and every decision taken by the library.

use frlearn::bruteforce::{rank_neighbors, BruteForceIndex};
use frlearn::distance::{validate_finite, validate_operands, Metric};
use frlearn::error::FrError;
use frlearn::frnn::{approximations, similarity_from_distance, FRNNModel, FRNN};
use frlearn::matrix::Matrix;
use frlearn::nn::{weight, NNModel, NN};
use frlearn::nnd::{batch_scores, raw_score, score_bounds, NNDModel, NND};
use frlearn::transformations::{clamp01, has_usable_sum, sanitize_rows};

fn matrix(cols: usize, rows: &[&[f64]]) -> Matrix {
    let words: Vec<Vec<u64>> = rows.iter().map(|row| row.iter().map(|v| v.to_bits()).collect()).collect();
    Matrix::from_rows(cols, &words).expect("rows of one length")
}

fn from_values(cols: usize, rows: &[Vec<f64>]) -> Matrix {
    let words: Vec<Vec<u64>> = rows.iter().map(|row| row.iter().map(|v| v.to_bits()).collect()).collect();
    Matrix::from_rows(cols, &words).expect("rows of one length")
}

fn values(m: &Matrix) -> Vec<Vec<f64>> {
    m.to_rows().iter().map(|row| row.iter().map(|w| f64::from_bits(*w)).collect()).collect()
}

fn close(a: f64, b: f64) -> bool {
    (a - b).abs() <= 1e-12
}

fn pairwise_distance(left: &[u64], right: &[u64], metric: Metric) -> Result<f64, FrError> {
    validate_operands(&left.to_vec(), &right.to_vec())?;
    let mut sum = 0.0f64;
    for (l, r) in left.iter().zip(right.iter()) {
        let delta = f64::from_bits(*l) - f64::from_bits(*r);
        match metric {
            Metric::Euclidean => sum += delta * delta,
            Metric::Manhattan => sum += delta.abs(),
        }
    }
    Ok(match metric {
        Metric::Euclidean => sum.sqrt(),
        Metric::Manhattan => sum,
    })
}

fn distance_table(index: &BruteForceIndex, xq: &Matrix) -> Matrix {
    let train = index.x_train.to_rows();
    let rows: Vec<Vec<f64>> = xq
        .to_rows()
        .iter()
        .map(|q| train.iter().map(|t| pairwise_distance(q, t, index.metric).expect("checked")).collect())
        .collect();
    from_values(train.len(), &rows)
}

fn query(index: &BruteForceIndex, xq: &Matrix, k: usize) -> Result<(Matrix, Matrix), FrError> {
    let effective_k = index.check_query(xq, k)?;
    let table = if xq.nrows() == 0 || effective_k == 0 {
        Matrix::zeros(0, 0)
    } else {
        distance_table(index, xq)
    };
    index.query(xq, k, &table)
}

fn nn_predict_scores(model: &NNModel, xq: &Matrix) -> Result<Vec<Vec<f64>>, FrError> {
    let (indices, distances) = query(&model.index, xq, model.k)?;
    let labels = model.neighbor_labels(&indices);
    let mut scores = vec![vec![0.0f64; model.n_classes]; indices.nrows()];
    for q in 0..indices.nrows() {
        let mut total = 0.0f64;
        for p in 0..indices.ncols() {
            let d = distances.get(q, p);
            let w = f64::from_bits(weight(d, (1.0 / (1.0 + f64::from_bits(d))).to_bits()));
            scores[q][labels.get(q, p) as usize] += w;
            total += w;
        }
        if has_usable_sum(total.to_bits()) {
            for value in scores[q].iter_mut() {
                *value /= total;
            }
        }
    }
    Ok(scores)
}

fn safe_normalize_rows(scores: &[Vec<f64>], cols: usize) -> Vec<Vec<f64>> {
    let cleaned = values(&sanitize_rows(&from_values(cols, scores)));
    cleaned
        .iter()
        .map(|row| {
            let sum: f64 = row.iter().sum();
            if has_usable_sum(sum.to_bits()) {
                row.iter().map(|v| v / sum).collect()
            } else {
                vec![1.0 / cols as f64; cols]
            }
        })
        .collect()
}

fn frnn_predict_scores(model: &FRNNModel, xq: &Matrix) -> Result<Vec<Vec<f64>>, FrError> {
    let (indices, distances) = query(&model.index, xq, model.k)?;
    if indices.ncols() == 0 {
        return Ok(vec![vec![0.0; model.n_classes]; indices.nrows()]);
    }
    let labels = model.neighbor_labels(&indices);
    let similarities: Vec<Vec<f64>> = distances
        .to_rows()
        .iter()
        .map(|row| {
            row.iter()
                .map(|d| {
                    let reciprocal = 1.0 / (1.0 + f64::from_bits(*d));
                    f64::from_bits(similarity_from_distance(*d, reciprocal.to_bits()))
                })
                .collect()
        })
        .collect();
    let complements: Vec<Vec<f64>> = similarities
        .iter()
        .map(|row| {
            row.iter()
                .map(|s| {
                    let inside = f64::from_bits(clamp01(s.to_bits()));
                    f64::from_bits(clamp01((1.0 - inside).to_bits()))
                })
                .collect()
        })
        .collect();
    let (lower, upper) = approximations(
        &labels,
        &from_values(indices.ncols(), &similarities),
        &from_values(indices.ncols(), &complements),
        model.n_classes,
    );
    let raw: Vec<Vec<f64>> = (0..indices.nrows())
        .map(|q| {
            (0..model.n_classes)
                .map(|c| {
                    let half = 0.5 * (f64::from_bits(lower.get(q, c)) + f64::from_bits(upper.get(q, c)));
                    f64::from_bits(clamp01(half.to_bits()))
                })
                .collect()
        })
        .collect();
    Ok(safe_normalize_rows(&raw, model.n_classes))
}

fn normalize_scores(raw: &[f64]) -> Vec<f64> {
    let words: Vec<u64> = raw.iter().map(|v| v.to_bits()).collect();
    let (least, greatest) = score_bounds(&words);
    let least = f64::from_bits(least);
    let range = f64::from_bits(greatest) - least;
    let offsets: Vec<u64> = raw.iter().map(|v| (v - least).to_bits()).collect();
    let quotients: Vec<u64> = raw.iter().map(|v| ((v - least) / range).to_bits()).collect();
    batch_scores(range.to_bits(), &offsets, &quotients).iter().map(|w| f64::from_bits(*w)).collect()
}

fn predict_anomaly_scores(model: &NNDModel, xq: &Matrix) -> Result<Vec<f64>, FrError> {
    let (_indices, distances) = query(&model.index, xq, model.k)?;
    let k_eff = distances.ncols();
    if k_eff == 0 {
        return Ok(vec![0.0; xq.nrows()]);
    }
    let raw: Vec<f64> = values(&distances)
        .iter()
        .map(|row| {
            let sum: f64 = row.iter().sum();
            let count = k_eff as f64;
            f64::from_bits(raw_score(sum.to_bits(), count.to_bits(), (sum / count).to_bits()))
        })
        .collect();
    Ok(normalize_scores(&raw))
}

#[test]
fn euclidean_knn_returns_known_neighbors() {
    let x_train = matrix(2, &[&[0.0, 0.0], &[1.0, 1.0], &[2.0, 2.0]]);
    let x_query = matrix(2, &[&[0.1, 0.1], &[1.5, 1.5]]);

    let index = BruteForceIndex::new(x_train, Metric::Euclidean);
    let (indices, distances) = query(&index, &x_query, 2).expect("query should succeed");

    assert_eq!((indices.nrows(), indices.ncols()), (2, 2));
    assert_eq!((distances.nrows(), distances.ncols()), (2, 2));
    assert_eq!(indices.get(0, 0), 0);
    assert_eq!(indices.get(0, 1), 1);
    assert_eq!(indices.get(1, 0), 1);
    assert_eq!(indices.get(1, 1), 2);

    assert!(close(f64::from_bits(distances.get(0, 0)), (0.02f64).sqrt()));
    assert!(close(f64::from_bits(distances.get(1, 0)), (0.5f64).sqrt()));
}

#[test]
fn known_neighbors_come_with_all_four_distances() {
    let x_train = matrix(2, &[&[0.0, 0.0], &[1.0, 1.0], &[2.0, 2.0]]);
    let x_query = matrix(2, &[&[0.1, 0.1], &[1.5, 1.5]]);
    let index = BruteForceIndex::new(x_train, Metric::Euclidean);
    let (indices, distances) = query(&index, &x_query, 2).expect("query should succeed");

    assert_eq!(indices.to_rows(), vec![vec![0, 1], vec![1, 2]]);
    let d = values(&distances);
    assert!(close(d[0][0], (0.02f64).sqrt()));
    assert!(close(d[0][1], (1.62f64).sqrt()));
    assert!(close(d[1][0], (0.5f64).sqrt()));
    assert!(close(d[1][1], (0.5f64).sqrt()));
}

#[test]
fn manhattan_metric_is_supported() {
    let x_train = matrix(2, &[&[0.0, 0.0], &[1.0, 2.0], &[2.0, 4.0]]);
    let x_query = matrix(2, &[&[1.0, 1.0]]);

    let index = BruteForceIndex::new(x_train, Metric::Manhattan);
    let (indices, distances) = query(&index, &x_query, 2).expect("query should succeed");

    assert_eq!(indices.get(0, 0), 1);
    assert_eq!(indices.get(0, 1), 0);
    assert!(close(f64::from_bits(distances.get(0, 0)), 1.0));
    assert!(close(f64::from_bits(distances.get(0, 1)), 2.0));
}

#[test]
fn query_clamps_k_to_train_size_and_handles_empty_queries() {
    let x_train = matrix(2, &[&[0.0, 0.0], &[1.0, 1.0], &[3.0, 3.0]]);
    let x_query = matrix(2, &[&[0.2, 0.2]]);
    let empty_query = Matrix::zeros(0, 2);

    let index = BruteForceIndex::new(x_train, Metric::Euclidean);

    let (indices, distances) = query(&index, &x_query, 10).expect("query should succeed");
    assert_eq!((indices.nrows(), indices.ncols()), (1, 3));
    assert_eq!((distances.nrows(), distances.ncols()), (1, 3));

    let (empty_indices, empty_distances) = query(&index, &empty_query, 5).expect("query should succeed");
    assert_eq!((empty_indices.nrows(), empty_indices.ncols()), (0, 3));
    assert_eq!((empty_distances.nrows(), empty_distances.ncols()), (0, 3));
}

#[test]
fn distances_are_sorted_per_query_row() {
    let x_train = matrix(2, &[&[2.0, 2.0], &[0.0, 0.0], &[1.0, 1.0], &[3.0, 3.0]]);
    let x_query = matrix(2, &[&[0.9, 0.9], &[2.1, 2.1]]);

    let index = BruteForceIndex::new(x_train, Metric::Euclidean);
    let (_indices, distances) = query(&index, &x_query, 4).expect("query should succeed");

    for row in values(&distances) {
        for col in 1..row.len() {
            assert!(row[col - 1] <= row[col]);
        }
    }
}

#[test]
fn query_for_no_neighbours_is_answered_whatever_the_cells_hold() {
    let x_train = matrix(1, &[&[f64::NAN], &[1.0]]);
    let x_query = matrix(1, &[&[f64::INFINITY]]);
    let index = BruteForceIndex::new(x_train, Metric::Euclidean);

    let (indices, distances) = query(&index, &x_query, 0).expect("no distances are taken");
    assert_eq!((indices.nrows(), indices.ncols()), (1, 0));
    assert_eq!((distances.nrows(), distances.ncols()), (1, 0));
}

#[test]
fn query_rejects_other_widths_and_non_finite_cells() {
    let index = BruteForceIndex::new(matrix(2, &[&[0.0, 0.0], &[1.0, 1.0]]), Metric::Euclidean);

    let narrow = matrix(1, &[&[0.0]]);
    match query(&index, &narrow, 1) {
        Err(FrError::InvalidInput(reason)) => {
            assert_eq!(reason, "query feature mismatch: expected 2, found 1")
        }
        other => panic!("unexpected {other:?}"),
    }

    let infinite = matrix(2, &[&[0.0, f64::INFINITY]]);
    match query(&index, &infinite, 1) {
        Err(FrError::InvalidInput(reason)) => assert_eq!(reason, "non-finite value encountered"),
        other => panic!("unexpected {other:?}"),
    }

    let poisoned = BruteForceIndex::new(matrix(2, &[&[0.0, f64::NAN]]), Metric::Manhattan);
    let fine = matrix(2, &[&[0.0, 0.0]]);
    assert!(matches!(query(&poisoned, &fine, 1), Err(FrError::InvalidInput(_))));
}

#[test]
fn equal_distances_are_listed_by_ascending_row_number() {
    let table = matrix(5, &[&[2.0, 1.0, 2.0, 1.0, 0.5], &[0.0, -0.0, 0.0, -0.0, 7.0]]);
    let (indices, distances) = rank_neighbors(&table, 4);
    assert_eq!(indices.to_rows(), vec![vec![4, 1, 3, 0], vec![1, 3, 0, 2]]);
    let d = values(&distances);
    assert_eq!(d[0], vec![0.5, 1.0, 1.0, 2.0]);
    assert_eq!(distances.to_rows()[1], vec![(-0.0f64).to_bits(), (-0.0f64).to_bits(), 0, 0]);
}

#[test]
fn ranking_agrees_with_a_stable_sort() {
    let mut state: u64 = 0x9E37_79B9_7F4A_7C15;
    for round in 0..50 {
        let n = 1 + round % 9;
        let row: Vec<f64> = (0..n)
            .map(|_| {
                state = state.wrapping_mul(6364136223846793005).wrapping_add(1442695040888963407);
                ((state >> 60) as f64) * 0.25
            })
            .collect();
        let table = matrix(n, &[&row]);
        for k in 0..n + 2 {
            let (indices, distances) = rank_neighbors(&table, k);
            let mut expected: Vec<(usize, f64)> = row.iter().copied().enumerate().collect();
            expected.sort_by(|l, r| l.1.total_cmp(&r.1).then_with(|| l.0.cmp(&r.0)));
            expected.truncate(k.min(n));
            let want_indices: Vec<u64> = expected.iter().map(|e| e.0 as u64).collect();
            let want_distances: Vec<u64> = expected.iter().map(|e| e.1.to_bits()).collect();
            assert_eq!(indices.to_rows(), vec![want_indices]);
            assert_eq!(distances.to_rows(), vec![want_distances]);
        }
    }
}

#[test]
fn operands_are_checked_for_length_first_and_then_for_finiteness() {
    let ok = validate_operands(&vec![1.0f64.to_bits()], &vec![2.0f64.to_bits()]);
    assert_eq!(ok, Ok(()));
    let uneven = validate_operands(&vec![f64::NAN.to_bits()], &vec![]);
    assert_eq!(uneven, Err(FrError::InvalidInput("distance feature mismatch: left=1, right=0".to_string())));
    let infinite = validate_operands(&vec![0], &vec![f64::NEG_INFINITY.to_bits()]);
    assert_eq!(infinite, Err(FrError::InvalidInput("non-finite value encountered".to_string())));
    assert_eq!(validate_finite(ONE_AND_A_HALF), Ok(ONE_AND_A_HALF));
    assert!(validate_finite(f64::NAN.to_bits()).is_err());
}

const ONE_AND_A_HALF: u64 = 0x3FF8_0000_0000_0000;

#[test]
fn nn_predicts_obvious_nearest_class() {
    let x_train = matrix(2, &[&[0.0, 0.0], &[0.2, 0.1], &[5.0, 5.0], &[5.1, 4.9]]);
    let y_train = vec![0usize, 0, 1, 1];
    let x_query = matrix(2, &[&[0.1, 0.0], &[5.0, 5.1]]);

    let estimator = NN { k: 1, metric: Metric::Euclidean };
    let model = estimator.fit(&x_train, &y_train).expect("fit should succeed");
    let scores = nn_predict_scores(&model, &x_query).expect("predict_scores should succeed");

    assert_eq!((scores.len(), scores[0].len()), (2, 2));
    assert!(scores[0][0] > scores[0][1]);
    assert!(scores[1][1] > scores[1][0]);
    assert!(close(scores[0].iter().sum::<f64>(), 1.0));
    assert!(close(scores[1].iter().sum::<f64>(), 1.0));
}

#[test]
fn nn_score_shape_matches_query_and_classes() {
    let x_train = matrix(2, &[&[0.0, 0.0], &[1.0, 1.0], &[9.0, 9.0]]);
    let y_train = vec![0usize, 1, 2];
    let x_query = matrix(2, &[&[0.2, 0.2], &[1.1, 1.2], &[8.9, 9.1], &[2.0, 2.0]]);

    let estimator = NN { k: 2, metric: Metric::Euclidean };
    let model = estimator.fit(&x_train, &y_train).expect("fit should succeed");
    let scores = nn_predict_scores(&model, &x_query).expect("predict_scores should succeed");

    assert_eq!(scores.len(), 4);
    assert!(scores.iter().all(|row| row.len() == 3));
}

#[test]
fn nn_votes_are_weighted_by_distance() {
    let x_train = matrix(1, &[&[0.0], &[1.0], &[3.0]]);
    let y_train = vec![0usize, 1, 1];
    let x_query = matrix(1, &[&[0.0]]);
    let model = NN { k: 3, metric: Metric::Manhattan }.fit(&x_train, &y_train).expect("fit should succeed");
    let scores = nn_predict_scores(&model, &x_query).expect("predict_scores should succeed");
    // weights 1, 1/2 and 1/4
    assert!(close(scores[0][0], 1.0 / 1.75));
    assert!(close(scores[0][1], 0.75 / 1.75));
}

#[test]
fn fit_reports_each_fault_of_a_training_set() {
    let x = matrix(2, &[&[0.0, 0.0], &[1.0, 1.0]]);
    let y = vec![0usize, 3];

    let nn = NN { k: 1, metric: Metric::Euclidean };
    let model = nn.fit(&x, &y).expect("fit should succeed");
    assert_eq!(model.n_classes, 4);
    assert_eq!(model.k, 1);
    assert_eq!(model.y_train, y);
    assert_eq!(model.x_train.to_rows(), x.to_rows());
    assert_eq!(model.index.x_train.to_rows(), x.to_rows());
    assert_eq!(model.index.metric, Metric::Euclidean);

    assert_eq!(nn.fit(&Matrix::zeros(0, 2), &vec![]).err(), Some(FrError::EmptyInput));
    assert_eq!(nn.fit(&Matrix::zeros(2, 0), &y).err(), Some(FrError::EmptyInput));
    assert_eq!(
        NN { k: 0, metric: Metric::Euclidean }.fit(&x, &y).err(),
        Some(FrError::InvalidInput("k must be at least 1".to_string()))
    );
    assert_eq!(
        nn.fit(&x, &vec![0usize]).err(),
        Some(FrError::LabelLengthMismatch { expected: 2, found: 1 })
    );
    // an empty matrix is reported before a zero k, and a zero k before the labels
    assert_eq!(
        NN { k: 0, metric: Metric::Euclidean }.fit(&Matrix::zeros(0, 0), &vec![0usize]).err(),
        Some(FrError::EmptyInput)
    );
    assert_eq!(
        FRNN { k: 0, metric: Metric::Manhattan }.fit(&x, &vec![]).err(),
        Some(FrError::InvalidInput("k must be at least 1".to_string()))
    );
    let frnn = FRNN { k: 2, metric: Metric::Manhattan }.fit(&x, &y).expect("fit should succeed");
    assert_eq!((frnn.n_classes, frnn.k, frnn.index.metric), (4, 2, Metric::Manhattan));
}

#[test]
fn defaults_are_as_documented() {
    let nn = NN::default();
    assert_eq!((nn.k, nn.metric), (1, Metric::Euclidean));
    let frnn = FRNN::default();
    assert_eq!((frnn.k, frnn.metric), (5, Metric::Euclidean));
    let nnd = NND::default();
    assert_eq!((nnd.k, nnd.metric), (5, Metric::Euclidean));
}

#[test]
fn frnn_scores_have_expected_shape_and_no_nans() {
    let x_train = matrix(2, &[&[0.0, 0.0], &[0.2, 0.1], &[3.0, 3.0], &[3.1, 2.9], &[6.0, 6.0]]);
    let y_train = vec![0usize, 0, 1, 1, 2];
    let x_query = matrix(2, &[&[0.1, 0.1], &[3.0, 3.2], &[5.9, 6.2]]);

    let estimator = FRNN { k: 3, metric: Metric::Euclidean };
    let model = estimator.fit(&x_train, &y_train).expect("fit should succeed");
    let scores = frnn_predict_scores(&model, &x_query).expect("predict_scores should succeed");

    assert_eq!(scores.len(), 3);
    assert!(scores.iter().all(|row| row.len() == 3));
    assert!(scores.iter().flatten().all(|value| !value.is_nan()));
    for row in &scores {
        assert!(close(row.iter().sum::<f64>(), 1.0));
    }
}

#[test]
fn frnn_is_deterministic_for_fixed_data() {
    let x_train = matrix(2, &[&[0.0, 0.0], &[1.0, 1.0], &[1.2, 1.1], &[4.0, 4.0]]);
    let y_train = vec![0usize, 1, 1, 2];
    let x_query = matrix(2, &[&[0.5, 0.5], &[3.9, 3.8]]);

    let estimator = FRNN { k: 3, metric: Metric::Euclidean };
    let model = estimator.fit(&x_train, &y_train).expect("fit should succeed");

    let scores_a = frnn_predict_scores(&model, &x_query).expect("predict_scores should succeed");
    let scores_b = frnn_predict_scores(&model, &x_query).expect("predict_scores should succeed");

    assert_eq!(scores_a.len(), scores_b.len());
    for row_idx in 0..scores_a.len() {
        assert_eq!(scores_a[row_idx].len(), scores_b[row_idx].len());
        for col_idx in 0..scores_a[row_idx].len() {
            assert!(close(scores_a[row_idx][col_idx], scores_b[row_idx][col_idx]));
        }
    }
}

#[test]
fn approximations_follow_the_nearest_neighbours_of_each_class() {
    // one query row, three neighbours of classes 0, 1, 0
    let labels = Matrix::from_rows(3, &vec![vec![0, 1, 0]]).unwrap();
    let similarities = matrix(3, &[&[0.5, 0.25, 0.75]]);
    let complements = matrix(3, &[&[0.5, 0.75, 0.25]]);
    let (lower, upper) = approximations(&labels, &similarities, &complements, 3);
    assert_eq!(values(&upper), vec![vec![0.75, 0.25, 0.0]]);
    assert_eq!(values(&lower), vec![vec![0.75, 0.25, 0.25]]);
}

#[test]
fn inliers_score_lower_than_far_outliers() {
    let x_inlier = matrix(2, &[&[0.0, 0.0], &[0.1, -0.1], &[-0.1, 0.1], &[0.05, 0.05]]);
    let x_query = matrix(2, &[&[0.0, 0.0], &[4.0, 4.0], &[0.2, -0.1], &[5.0, 5.0]]);

    let descriptor = NND { k: 2, metric: Metric::Euclidean };
    let model = descriptor.fit(&x_inlier).expect("fit should succeed");
    let scores = predict_anomaly_scores(&model, &x_query).expect("predict should succeed");

    assert!(scores[0] < scores[1]);
    assert!(scores[2] < scores[3]);
}

#[test]
fn scores_are_deterministic_and_finite() {
    let x_inlier = matrix(2, &[&[1.0, 1.0], &[1.2, 1.1], &[0.8, 0.9], &[1.1, 1.2]]);
    let x_query = matrix(2, &[&[1.0, 1.0], &[1.5, 1.5], &[2.0, 2.0]]);

    let descriptor = NND { k: 3, metric: Metric::Euclidean };
    let model = descriptor.fit(&x_inlier).expect("fit should succeed");

    let first = predict_anomaly_scores(&model, &x_query).expect("predict should succeed");
    let second = predict_anomaly_scores(&model, &x_query).expect("predict should succeed");

    assert_eq!(first.len(), second.len());
    for idx in 0..first.len() {
        assert!(!first[idx].is_nan());
        assert!(close(first[idx], second[idx]));
        assert_eq!(first[idx].to_bits(), second[idx].to_bits());
    }
}

#[test]
fn predictor_interface_returns_single_score_column() {
    let x_inlier = matrix(2, &[&[0.0, 0.0], &[1.0, 1.0], &[2.0, 2.0]]);
    let x_query = matrix(2, &[&[0.1, 0.1], &[1.5, 1.5]]);

    let descriptor = NND { k: 2, metric: Metric::Euclidean };
    let model = descriptor.fit(&x_inlier).expect("fit should succeed");
    let scores = predict_anomaly_scores(&model, &x_query).expect("predict should succeed");
    let score_matrix = from_values(1, &scores.iter().map(|s| vec![*s]).collect::<Vec<_>>());

    assert_eq!((score_matrix.nrows(), score_matrix.ncols()), (2, 1));
    for value in values(&score_matrix).iter().flatten() {
        assert!(!value.is_nan());
        assert!((0.0..=1.0).contains(value));
    }
}

#[test]
fn raw_scores_are_scaled_to_the_range_of_their_batch() {
    let scores = normalize_scores(&[1.0, 2.0, 3.0, 4.0]);
    assert_eq!(scores.len(), 4);
    assert!(close(scores[0], 0.0));
    assert!(close(scores[1], 1.0 / 3.0));
    assert!(close(scores[2], 2.0 / 3.0));
    assert!(close(scores[3], 1.0));
}

#[test]
fn a_batch_without_spread_collapses_to_zero() {
    assert_eq!(normalize_scores(&[2.5, 2.5, 2.5]), vec![0.0, 0.0, 0.0]);
    assert_eq!(normalize_scores(&[1.0, f64::INFINITY]), vec![0.0, 0.0]);
    assert_eq!(normalize_scores(&[]), Vec::<f64>::new());
}

#[test]
fn nnd_fit_reports_each_fault() {
    let x = matrix(1, &[&[0.0]]);
    assert_eq!(NND { k: 1, metric: Metric::Manhattan }.fit(&Matrix::zeros(0, 1)).err(), Some(FrError::EmptyInput));
    assert_eq!(NND { k: 0, metric: Metric::Manhattan }.fit(&Matrix::zeros(1, 0)).err(), Some(FrError::EmptyInput));
    assert_eq!(
        NND { k: 0, metric: Metric::Manhattan }.fit(&x).err(),
        Some(FrError::InvalidInput("k must be at least 1".to_string()))
    );
    let model = NND { k: 4, metric: Metric::Manhattan }.fit(&x).expect("fit should succeed");
    assert_eq!((model.k, model.metric, model.index.metric), (4, Metric::Manhattan, Metric::Manhattan));
    assert_eq!(model.x_inlier.to_rows(), vec![vec![0u64]]);
}

#[test]
fn frnn_scores_are_the_normalised_means_of_both_approximations() {
    // neighbours at distance 0 and 1: similarities 1 and 1/2
    let x_train = matrix(1, &[&[0.0], &[1.0]]);
    let y_train = vec![0usize, 1];
    let x_query = matrix(1, &[&[0.0]]);
    let model = FRNN { k: 2, metric: Metric::Manhattan }.fit(&x_train, &y_train).expect("fit should succeed");
    let scores = frnn_predict_scores(&model, &x_query).expect("predict_scores should succeed");
    // class 0: upper 1, lower 1/2; class 1: upper 1/2, lower 0
    assert!(close(scores[0][0], 0.75));
    assert!(close(scores[0][1], 0.25));
}

#[test]
fn scores_have_a_row_per_query_and_a_column_per_class_and_are_finite() {
    let x_train = matrix(2, &[&[0.0, 0.0], &[0.0, 0.0], &[1e300, -1e300], &[3.0, 4.0]]);
    let y_train = vec![2usize, 0, 5, 0];
    let x_query = matrix(2, &[&[0.0, 0.0], &[-1e300, 1e300], &[3.0, 4.0]]);
    for k in [1usize, 2, 4, 9] {
        for metric in [Metric::Euclidean, Metric::Manhattan] {
            let nn = NN { k, metric }.fit(&x_train, &y_train).expect("fit should succeed");
            let frnn = FRNN { k, metric }.fit(&x_train, &y_train).expect("fit should succeed");
            let a = nn_predict_scores(&nn, &x_query).expect("predict_scores should succeed");
            let b = frnn_predict_scores(&frnn, &x_query).expect("predict_scores should succeed");
            for scores in [&a, &b] {
                assert_eq!(scores.len(), 3);
                for row in scores.iter() {
                    assert_eq!(row.len(), 6);
                    assert!(row.iter().all(|value| value.is_finite()));
                }
            }
            // a fuzzy-rough row always sums to one
            for row in &b {
                assert!(close(row.iter().sum::<f64>(), 1.0));
            }
            // a vote sums to one unless every neighbour is infinitely far away
            for row in &a {
                let sum: f64 = row.iter().sum();
                assert!(close(sum, 1.0) || sum == 0.0);
            }
            if metric == Metric::Euclidean {
                assert_eq!(a[1].iter().sum::<f64>(), 0.0);
            }
        }
    }
}

#[test]
fn a_model_without_neighbours_scores_zero() {
    let x = matrix(1, &[&[0.0], &[1.0]]);
    let mut model = NN { k: 1, metric: Metric::Euclidean }.fit(&x, &vec![0usize, 1]).expect("fit should succeed");
    model.k = 0;
    let scores = nn_predict_scores(&model, &x).expect("predict_scores should succeed");
    assert_eq!(scores, vec![vec![0.0, 0.0], vec![0.0, 0.0]]);

    let mut model = FRNN { k: 1, metric: Metric::Euclidean }.fit(&x, &vec![0usize, 1]).expect("fit should succeed");
    model.k = 0;
    let scores = frnn_predict_scores(&model, &x).expect("predict_scores should succeed");
    assert_eq!(scores, vec![vec![0.0, 0.0], vec![0.0, 0.0]]);

    let mut model = NND { k: 1, metric: Metric::Euclidean }.fit(&x).expect("fit should succeed");
    model.k = 0;
    assert_eq!(predict_anomaly_scores(&model, &x).expect("predict should succeed"), vec![0.0, 0.0]);
}

#[test]
fn anomaly_scores_stay_in_the_unit_interval_whatever_is_handed_in() {
    let odd = [f64::NAN, f64::INFINITY, -1.0, 0.0, 0.5, 2.0, f64::NEG_INFINITY, 1e-320];
    for range in odd {
        for offset in odd {
            for quotient in odd {
                let scores = batch_scores(range.to_bits(), &vec![offset.to_bits()], &vec![quotient.to_bits()]);
                let score = f64::from_bits(scores[0]);
                assert!((0.0..=1.0).contains(&score), "{range:?} {offset:?} {quotient:?}");
            }
        }
    }
    let (least, greatest) = score_bounds(&vec![3.0f64.to_bits(), f64::NAN.to_bits(), (-2.0f64).to_bits()]);
    assert_eq!((f64::from_bits(least), f64::from_bits(greatest)), (-2.0, 3.0));
    let (least, greatest) = score_bounds(&vec![]);
    assert_eq!((f64::from_bits(least), f64::from_bits(greatest)), (f64::INFINITY, f64::NEG_INFINITY));
    assert_eq!(f64::from_bits(raw_score(6.0f64.to_bits(), 3.0f64.to_bits(), 2.0f64.to_bits())), 2.0);
    assert_eq!(f64::from_bits(raw_score(6.0f64.to_bits(), 0.0f64.to_bits(), f64::INFINITY.to_bits())), 0.0);
    assert_eq!(f64::from_bits(raw_score((-6.0f64).to_bits(), 3.0f64.to_bits(), (-2.0f64).to_bits())), 0.0);
}

#[test]
fn similarity_and_weight_follow_the_distance() {
    let half = 0.5f64.to_bits();
    assert_eq!(f64::from_bits(similarity_from_distance(1.0f64.to_bits(), half)), 0.5);
    assert_eq!(f64::from_bits(similarity_from_distance((-1.0f64).to_bits(), half)), 0.0);
    assert_eq!(f64::from_bits(similarity_from_distance(f64::NAN.to_bits(), half)), 0.0);
    assert_eq!(f64::from_bits(similarity_from_distance(f64::INFINITY.to_bits(), half)), 0.0);
    assert_eq!(f64::from_bits(similarity_from_distance(0.0f64.to_bits(), 1.0f64.to_bits())), 1.0);
    assert_eq!(f64::from_bits(similarity_from_distance((-0.0f64).to_bits(), 1.0f64.to_bits())), 1.0);
    assert_eq!(f64::from_bits(weight(1.0f64.to_bits(), half)), 0.5);
    assert_eq!(f64::from_bits(weight(0.0f64.to_bits(), half)), 1.0);
    assert_eq!(f64::from_bits(weight((-3.0f64).to_bits(), half)), 1.0);
    assert!(f64::from_bits(weight(f64::NAN.to_bits(), f64::NAN.to_bits())).is_nan());
}
