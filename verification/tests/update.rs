use slack_tui::update::{due, head_commit, standing, Check, Standing, A_DAY};
use slack_tui::version::UNKNOWN;

const INSTALLED: &str = "43d0edda4dd29c731c39a49023a6cc7ac013ba52";
const NEWER: &str = "635cf1b19af9f04a8789f73d78df1dca02259c35";
const NOON: i64 = 1_789_660_000;

fn checked(at: i64) -> Check {
    Check { commit: Some(NEWER.into()), at }
}

#[test]
fn the_same_commit_is_current() {
    assert_eq!(standing(INSTALLED, Some(INSTALLED)), Standing::Current);
}

#[test]
fn another_commit_means_behind() {
    assert_eq!(standing(INSTALLED, Some(NEWER)), Standing::Behind);
}

#[test]
fn a_missing_answer_says_nothing() {
    assert_eq!(standing(INSTALLED, None), Standing::Unknown);
}

#[test]
fn a_binary_built_without_git_says_nothing() {
    assert_eq!(standing(UNKNOWN, Some(NEWER)), Standing::Unknown);
}

#[test]
fn never_checked_is_due() {
    assert!(due(None, NOON));
}

#[test]
fn a_check_from_today_is_not_due() {
    assert!(!due(Some(&checked(NOON - A_DAY + 1)), NOON));
}

#[test]
fn a_check_from_yesterday_is_due() {
    assert!(due(Some(&checked(NOON - A_DAY)), NOON));
}

#[test]
fn a_check_stamped_in_the_future_is_not_due() {
    assert!(!due(Some(&checked(NOON + A_DAY)), NOON));
}

#[test]
fn the_listing_names_the_head_commit_first() {
    assert_eq!(head_commit(&format!("{NEWER}\tHEAD\n")), Some(NEWER.to_string()));
    assert_eq!(head_commit("  \n"), None);
    assert_eq!(head_commit(""), None);
}

#[test]
fn a_failed_check_also_waits_a_day() {
    let failed = Check { commit: None, at: NOON };
    assert!(!due(Some(&failed), NOON + A_DAY - 1));
    assert!(due(Some(&failed), NOON + A_DAY));
}
