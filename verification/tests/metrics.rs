use shrew_nn::metrics::{
    accuracy, argmax_classes, classification_report, tensor_accuracy, top_k_accuracy, Average,
    ConfusionMatrix, Ratio,
};

fn value(r: Ratio) -> f64 {
    if r.den == 0 {
        0.0
    } else {
        r.num as f64 / r.den as f64
    }
}

/// Order key of a score: keys compare as the scores do.
fn key(x: f64) -> u64 {
    let b = x.to_bits();
    if b >> 63 == 1 {
        !b
    } else {
        b | (1u64 << 63)
    }
}

fn keys(xs: &[f64]) -> Vec<u64> {
    xs.iter().map(|&x| key(x)).collect()
}

fn macro_average(parts: &[Ratio]) -> f64 {
    parts.iter().map(|&r| value(r)).sum::<f64>() / parts.len() as f64
}

#[test]
fn test_accuracy_perfect() {
    assert_eq!(value(accuracy(&[0, 1, 2, 0], &[0, 1, 2, 0])), 1.0);
}

#[test]
fn test_accuracy_50_percent() {
    assert_eq!(value(accuracy(&[0, 1, 0, 1], &[0, 0, 1, 1])), 0.5);
}

#[test]
fn test_confusion_matrix_binary() {
    // TP=2, FP=1, FN=1, TN=2
    let preds = [1, 1, 1, 0, 0, 0];
    let targets = [1, 1, 0, 0, 0, 1];
    let cm = ConfusionMatrix::from_predictions(&preds, &targets, 2);
    assert_eq!(cm.tp(1), 2); // true positive for class 1
    assert_eq!(cm.fp(1), 1); // false positive for class 1
    assert_eq!(cm.fn_(1), 1); // false negative for class 1
    assert_eq!(cm.tn(1), 2); // true negative for class 1
}

#[test]
fn test_precision_recall_f1_binary() {
    let preds = [1, 1, 1, 0, 0, 0];
    let targets = [1, 1, 0, 0, 0, 1];
    let cm = ConfusionMatrix::from_predictions(&preds, &targets, 2);
    let precisions: Vec<Ratio> = (0..2).map(|c| cm.precision_of(c)).collect();
    let recalls: Vec<Ratio> = (0..2).map(|c| cm.recall_of(c)).collect();
    let p = macro_average(&precisions);
    let r = macro_average(&recalls);
    let f = if p + r == 0.0 { 0.0 } else { 2.0 * p * r / (p + r) };
    assert!((p - 0.6667).abs() < 0.01);
    assert!((r - 0.6667).abs() < 0.01);
    assert!((f - 0.6667).abs() < 0.01);
}

#[test]
fn test_precision_micro() {
    let preds = [0, 1, 2, 0, 1, 2];
    let targets = [0, 1, 2, 1, 0, 2];
    // micro precision = accuracy for multi-class
    let cm = ConfusionMatrix::from_predictions(&preds, &targets, 3);
    let p = value(cm.micro_precision());
    let a = value(accuracy(&preds, &targets));
    assert!((p - a).abs() < 1e-10);
}

#[test]
fn test_classification_report() {
    let preds = [0, 0, 1, 1, 2, 2];
    let targets = [0, 1, 1, 2, 2, 0];
    let report = classification_report(&preds, &targets, 3);
    assert_eq!(report.len(), 3);
    assert_eq!(report[0].support, 2); // class 0 has 2 true samples
}

#[test]
fn test_top_k_accuracy() {
    // 2 samples, 3 classes
    let scores = [
        0.1, 0.7, 0.2, // sample 0: pred class 1
        0.8, 0.05, 0.15,
    ]; // sample 1: pred class 0, 2nd is class 2
    let targets = [1, 2];
    let k = keys(&scores);
    // top-1: only sample 0 correct
    assert!((value(top_k_accuracy(&k, &targets, 3, 1)) - 0.5).abs() < 1e-10);
    // top-2: both correct (class 2 is 2nd highest for sample 1)
    assert!((value(top_k_accuracy(&k, &targets, 3, 2)) - 1.0).abs() < 1e-10);
}

#[test]
fn test_argmax_classes() {
    let data = [
        0.1, 0.9, 0.3, // class 1
        0.8, 0.1, 0.1,
    ]; // class 0
    let classes = argmax_classes(&keys(&data), &[2, 3]);
    assert_eq!(classes, vec![1, 0]);
}

#[test]
fn micro_recall_equals_accuracy() {
    let preds = [0, 1, 2, 0, 1, 2, 2];
    let targets = [0, 1, 2, 1, 0, 2, 1];
    let cm = ConfusionMatrix::from_predictions(&preds, &targets, 3);
    assert_eq!(cm.micro_recall(), accuracy(&preds, &targets));
    assert_eq!(cm.micro_precision(), accuracy(&preds, &targets));
    assert_eq!(accuracy(&preds, &targets), Ratio { num: 4, den: 7 });
}

#[test]
fn class_counts_partition_total() {
    let preds = [0, 0, 1, 1, 2, 2, 1];
    let targets = [0, 1, 1, 2, 2, 0, 1];
    let cm = ConfusionMatrix::from_predictions(&preds, &targets, 3);
    assert_eq!(cm.total(), 7);
    for c in 0..3 {
        assert_eq!(cm.tp(c) + cm.fp(c) + cm.fn_(c) + cm.tn(c), cm.total());
        assert_eq!(cm.tp(c) + cm.fn_(c), cm.support(c));
    }
    assert_eq!(cm.matrix, vec![vec![1, 0, 1], vec![1, 2, 0], vec![0, 1, 1]]);
}

#[test]
fn confusion_matrix_skips_out_of_range_and_unpaired() {
    // the pair (5, 0) has an invalid prediction; the last target has no
    // prediction
    let cm = ConfusionMatrix::from_predictions(&[0, 5, 1], &[0, 0, 1, 1], 2);
    assert_eq!(cm.total(), 2);
    assert_eq!(cm.matrix, vec![vec![1, 0], vec![0, 1]]);
}

#[test]
fn accuracy_counts_over_predictions() {
    assert_eq!(accuracy(&[], &[]), Ratio { num: 0, den: 0 });
    assert_eq!(value(accuracy(&[], &[])), 0.0);
    // only the paired prefix is compared; the denominator is the number of
    // predictions
    assert_eq!(accuracy(&[1, 2, 3], &[1, 2]), Ratio { num: 2, den: 3 });
}

#[test]
fn per_class_ratios() {
    let preds = [1, 1, 1, 0, 0, 0];
    let targets = [1, 1, 0, 0, 0, 1];
    let cm = ConfusionMatrix::from_predictions(&preds, &targets, 2);
    assert_eq!(cm.precision_of(1), Ratio { num: 2, den: 3 });
    assert_eq!(cm.recall_of(1), Ratio { num: 2, den: 3 });
    assert_eq!(cm.support(0), 3);
    let report = classification_report(&preds, &targets, 2);
    assert_eq!(report[1].tp, 2);
    assert_eq!(report[1].fp, 1);
    assert_eq!(report[1].fn_, 1);
    assert_eq!(report[1].class, 1);
}

#[test]
fn confusion_matrix_table_text() {
    let cm = ConfusionMatrix::from_predictions(&[1, 1, 0], &[1, 0, 0], 2);
    let expected = format!(
        "{:>8}{:>8}{:>8}\n{:>8}{:>8}{:>8}\n{:>8}{:>8}{:>8}\n",
        "", "Pred 0", "Pred 1", "True 0", 1, 1, "True 1", 0, 1
    );
    assert_eq!(cm.to_string_table(), expected);
}

#[test]
fn confusion_matrix_table_wide_count() {
    let cm = ConfusionMatrix { matrix: vec![vec![123456789]], n_classes: 1 };
    assert_eq!(cm.to_string_table(), "          Pred 0\n  True 0123456789\n");
}

#[test]
fn top_k_ties_keep_class_order() {
    // all scores equal: the stable order is the class order
    let k = keys(&[0.5, 0.5, 0.5]);
    assert_eq!(top_k_accuracy(&k, &[0], 3, 1), Ratio { num: 1, den: 1 });
    assert_eq!(top_k_accuracy(&k, &[2], 3, 2), Ratio { num: 0, den: 1 });
    assert_eq!(top_k_accuracy(&k, &[2], 3, 3), Ratio { num: 1, den: 1 });
    // a target that is not a class is never a hit
    assert_eq!(top_k_accuracy(&k, &[3], 3, 3), Ratio { num: 0, den: 1 });
    assert_eq!(top_k_accuracy(&[], &[], 3, 1), Ratio { num: 0, den: 0 });
}

#[test]
fn argmax_takes_last_maximum() {
    let classes = argmax_classes(&keys(&[0.2, 0.9, 0.9, 0.1]), &[1, 4]);
    assert_eq!(classes, vec![2]);
    // a scalar shape has rows of one class
    assert_eq!(argmax_classes(&keys(&[3.0, 1.0]), &[]), vec![0, 0]);
}

#[test]
fn tensor_accuracy_one_hot_and_indices() {
    let logits = keys(&[0.1, 0.9, 0.8, 0.2]);
    // one-hot targets [2, 2]
    let one_hot = keys(&[0.0, 1.0, 0.0, 1.0]);
    let r = tensor_accuracy(&logits, &[2, 2], &one_hot, &[0, 1, 0, 1], &[2, 2]);
    assert_eq!(r, Ratio { num: 1, den: 2 });
    // class-index targets [2]
    let idx = keys(&[1.0, 0.0]);
    let r = tensor_accuracy(&logits, &[2, 2], &idx, &[1, 0], &[2]);
    assert_eq!(r, Ratio { num: 2, den: 2 });
}

#[test]
fn average_modes_are_distinct() {
    assert_ne!(Average::Macro, Average::Micro);
    assert_ne!(Average::Micro, Average::Weighted);
}
