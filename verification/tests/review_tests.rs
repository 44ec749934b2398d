use docscan::review::{Command, FileReview, StagingSet, StepVerdict, SuggestionRef};

fn sref(file: usize, idx: usize) -> SuggestionRef {
    SuggestionRef { file, idx }
}

#[test]
fn accept_then_skip_stages_exactly_the_first() {
    let mut staged = StagingSet::new();
    let mut review = FileReview::new(0, 3);
    assert!(matches!(review.apply(&mut staged, Command::Accept), StepVerdict::Continue));
    assert!(matches!(review.apply(&mut staged, Command::SkipFile), StepVerdict::FileDone));
    assert!(review.done);
    assert_eq!(staged.into_items(), vec![sref(0, 0)]);
}

#[test]
fn stage_all_remaining_at_first_stages_all_three() {
    let mut staged = StagingSet::new();
    let mut review = FileReview::new(0, 3);
    assert!(matches!(
        review.apply(&mut staged, Command::StageAllRemaining),
        StepVerdict::FileDone
    ));
    assert_eq!(staged.into_items(), vec![sref(0, 0), sref(0, 1), sref(0, 2)]);
}

#[test]
fn backward_at_start_wraps_instead_of_underflowing() {
    let mut staged = StagingSet::new();
    let mut review = FileReview::new(0, 3);
    assert!(matches!(review.apply(&mut staged, Command::GoBackward), StepVerdict::Continue));
    assert_eq!(review.cur, 0);
    assert!(!review.done);
    assert!(matches!(review.apply(&mut staged, Command::Reject), StepVerdict::Continue));
    assert_eq!(review.cur, 1);
}

#[test]
fn backward_then_forward_re_shows_earlier_suggestions() {
    let mut staged = StagingSet::new();
    let mut review = FileReview::new(0, 3);
    review.apply(&mut staged, Command::Reject);
    review.apply(&mut staged, Command::Reject);
    assert_eq!(review.cur, 2);
    review.apply(&mut staged, Command::GoBackward);
    assert_eq!(review.cur, 1);
    review.apply(&mut staged, Command::GoBackward);
    assert_eq!(review.cur, 0);
    review.apply(&mut staged, Command::GoBackward);
    assert_eq!(review.cur, 0);
}

#[test]
fn quit_ends_everything_without_staging_the_displayed_one() {
    let mut staged = StagingSet::new();
    let mut review = FileReview::new(0, 3);
    review.apply(&mut staged, Command::Accept);
    assert!(matches!(review.apply(&mut staged, Command::Quit), StepVerdict::QuitAll));
    assert!(review.done);
    assert_eq!(staged.into_items(), vec![sref(0, 0)]);
}

#[test]
fn forward_exhaustion_ends_the_file() {
    let mut staged = StagingSet::new();
    let mut review = FileReview::new(0, 2);
    assert!(matches!(review.apply(&mut staged, Command::Reject), StepVerdict::Continue));
    assert!(matches!(review.apply(&mut staged, Command::Accept), StepVerdict::FileDone));
    assert!(review.done);
    assert_eq!(staged.into_items(), vec![sref(0, 1)]);
}

#[test]
fn help_and_unrecognized_change_no_state() {
    let mut staged = StagingSet::new();
    let mut review = FileReview::new(0, 3);
    assert!(matches!(review.apply(&mut staged, Command::Help), StepVerdict::ShowHelp));
    assert_eq!(review.cur, 0);
    assert!(matches!(review.apply(&mut staged, Command::Unrecognized), StepVerdict::Continue));
    assert_eq!(review.cur, 0);
    assert_eq!(staged.into_items(), Vec::<SuggestionRef>::new());
}

#[test]
fn manual_edit_is_unsupported() {
    let mut staged = StagingSet::new();
    let mut review = FileReview::new(0, 1);
    assert!(matches!(review.apply(&mut staged, Command::ManualEdit), StepVerdict::Unsupported));
}

#[test]
fn empty_file_is_done_before_any_command() {
    let review = FileReview::new(4, 0);
    assert!(review.done);
}

#[test]
fn accept_then_stage_all_never_duplicates() {
    let mut staged = StagingSet::new();
    let mut review = FileReview::new(0, 3);
    review.apply(&mut staged, Command::Accept);
    review.apply(&mut staged, Command::GoBackward);
    assert_eq!(review.cur, 0);
    assert!(matches!(
        review.apply(&mut staged, Command::StageAllRemaining),
        StepVerdict::FileDone
    ));
    assert_eq!(staged.into_items(), vec![sref(0, 0), sref(0, 1), sref(0, 2)]);
}

#[test]
fn staging_is_shared_across_files_in_order() {
    let mut staged = StagingSet::new();
    let mut first = FileReview::new(0, 1);
    first.apply(&mut staged, Command::Accept);
    let mut second = FileReview::new(1, 2);
    second.apply(&mut staged, Command::Reject);
    second.apply(&mut staged, Command::Accept);
    assert_eq!(staged.into_items(), vec![sref(0, 0), sref(1, 1)]);
}
