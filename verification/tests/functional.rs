use shrew_nn::error::NnError;
use shrew_nn::init::{compute_fans, fan, FanMode};
use shrew_nn::loss::{check_class_scores, nll_target_mask, Reduction};

#[test]
fn test_compute_fans_conv() {
    // Conv2d: [out_ch=16, in_ch=3, kh=5, kw=5]
    let (fan_in, fan_out) = compute_fans(&[16, 3, 5, 5]);
    assert_eq!(fan_in, 3 * 25); // 75
    assert_eq!(fan_out, 16 * 25); // 400
}

#[test]
fn fans_of_small_shapes() {
    assert_eq!(compute_fans(&[]), (1, 1));
    assert_eq!(compute_fans(&[7]), (7, 7));
    assert_eq!(compute_fans(&[128, 64]), (64, 128));
    assert_eq!(fan(&[50, 100], FanMode::FanIn), 100);
    assert_eq!(fan(&[32, 16], FanMode::FanOut), 32);
    assert_eq!(fan(&[8, 4, 3], FanMode::FanIn), 12);
}

#[test]
fn nll_mask_marks_each_target() {
    let mask = nll_target_mask(&[2, 3], &[2, 0]).ok().unwrap();
    assert_eq!(mask, vec![false, false, true, true, false, false]);
    assert_eq!(
        nll_target_mask(&[2, 3], &[1, 3]).err(),
        Some(NnError::TargetOutOfRange { index: 3, classes: 3 })
    );
    assert_eq!(
        nll_target_mask(&[2, 3], &[5, 7]).err(),
        Some(NnError::TargetOutOfRange { index: 5, classes: 3 })
    );
    assert_eq!(nll_target_mask(&[6], &[0]).err(), Some(NnError::WrongRank { expected: 2, got: 1 }));
}

#[test]
fn class_scores_rank() {
    assert_eq!(check_class_scores(&[4, 10]), Ok((4, 10)));
    assert_eq!(check_class_scores(&[4, 10, 1]), Err(NnError::WrongRank { expected: 2, got: 3 }));
}

#[test]
fn reduction_default_is_mean() {
    assert_eq!(Reduction::default(), Reduction::Mean);
    assert_ne!(Reduction::Sum, Reduction::NoReduction);
}
