use slack_tui::compose::{to_send, Editor};

fn editor(program: &str, args: &[&str]) -> Editor {
    Editor { program: program.into(), args: args.iter().map(|a| (*a).to_owned()).collect() }
}

#[test]
fn visual_comes_first_then_editor_then_vi() {
    assert_eq!(Editor::pick(Some("emacs".into()), Some("nano".into())), editor("emacs", &[]));
    assert_eq!(Editor::pick(None, Some("nano".into())), editor("nano", &[]));
    assert_eq!(Editor::pick(None, None), editor("vi", &[]));
    assert_eq!(Editor::pick(Some("  ".into()), None), editor("vi", &[]));
}

#[test]
fn an_editor_keeps_the_arguments_it_was_given() {
    assert_eq!(Editor::pick(None, Some("code -w --new-window".into())), editor("code", &["-w", "--new-window"]));
}

#[test]
fn a_changed_file_is_sent_without_its_surrounding_blank() {
    assert_eq!(to_send("", "hello\n", true), Some("hello".into()));
    assert_eq!(to_send("hi", "\nhi there\n\n", true), Some("hi there".into()));
    assert_eq!(to_send("a", "one\ntwo", true), Some("one\ntwo".into()));
}

#[test]
fn nothing_is_sent_when_the_editor_failed_the_file_is_empty_or_the_draft_is_untouched() {
    assert_eq!(to_send("", "hello", false), None);
    assert_eq!(to_send("", "  \n ", true), None);
    assert_eq!(to_send("hi", "", true), None);
    assert_eq!(to_send("hi", "hi\n", true), None);
}

#[test]
fn tabs_and_runs_of_blanks_separate_the_editor_arguments() {
    assert_eq!(Editor::pick(Some("\tnvim  -u\tNONE ".into()), Some("nano".into())), editor("nvim", &["-u", "NONE"]));
}

#[test]
fn a_draft_surrounded_by_blanks_counts_as_untouched() {
    assert_eq!(to_send("  hi  ", "hi", true), None);
}
