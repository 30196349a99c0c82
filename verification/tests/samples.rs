use ftlr::samples::{check_paired, SampleError};

#[test]
fn training_set_of_equal_nonempty_columns_is_accepted() {
    assert_eq!(check_paired(3, 3, 1), Ok(()));
    assert_eq!(check_paired(1, 1, 1), Ok(()));
}

#[test]
fn columns_of_different_lengths_are_refused() {
    assert_eq!(check_paired(2, 1, 1), Err(SampleError::LengthMismatch));
    assert_eq!(check_paired(2, 1, 2), Err(SampleError::LengthMismatch));
}

#[test]
fn empty_columns_are_refused_when_one_point_is_needed() {
    assert_eq!(check_paired(0, 0, 1), Err(SampleError::TooFewPoints));
}

#[test]
fn closed_form_fit_needs_two_points() {
    assert_eq!(check_paired(1, 1, 2), Err(SampleError::TooFewPoints));
    assert_eq!(check_paired(2, 2, 2), Ok(()));
}

#[test]
fn length_mismatch_is_reported_before_shortage() {
    assert_eq!(check_paired(0, 1, 2), Err(SampleError::LengthMismatch));
}
