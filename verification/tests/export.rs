use slack_tui::export::export_file_name;
use slack_tui::palette::Format;

#[test]
fn the_file_is_named_after_the_conversation_and_the_time() {
    assert_eq!(export_file_name("#Ops-Team", Format::Markdown, "20260901-1230"), "slack-ops-team-20260901-1230.md");
    assert_eq!(export_file_name("@bob", Format::Json, "20260901-1230"), "slack-bob-20260901-1230.json");
}

#[test]
fn letters_of_any_script_stay_and_the_rest_become_dashes() {
    assert_eq!(export_file_name("🔒café ÉTÉ", Format::Json, "t"), "slack-café-ÉtÉ-t.json");
    assert_eq!(export_file_name("--", Format::Json, "t"), "slack--t.json");
}
