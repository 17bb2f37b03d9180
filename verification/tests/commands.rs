use slack_tui::commands::{go, leave, Destination, NOTHING_TO_LEAVE};
use slack_tui::palette::completions_for;
use slack_tui::sidebar::{ChannelRow, Kind};

fn channels() -> Vec<ChannelRow> {
    vec![ChannelRow::new("C1", "#general", Kind::Public), ChannelRow::new("C2", "#random", Kind::Public)]
}

fn people() -> Vec<(String, String)> {
    vec![("U1".to_string(), "Bob".to_string()), ("U2".to_string(), "alice".to_string())]
}

#[test]
fn go_opens_a_channel_or_a_person() {
    assert_eq!(go(&channels(), &people(), "#general"), Ok(Destination::Channel("C1".into())));
    assert_eq!(go(&channels(), &people(), "random"), Ok(Destination::Channel("C2".into())));
    assert_eq!(go(&channels(), &people(), "@bob"), Ok(Destination::Person("U1".into())));
    assert_eq!(go(&channels(), &people(), "@ALICE"), Ok(Destination::Person("U2".into())));
    assert_eq!(go(&channels(), &people(), "@carol"), Err("nobody called @carol".into()));
    assert_eq!(go(&channels(), &people(), "#ops"), Err("no conversation called #ops".into()));
    assert_eq!(go(&channels(), &people(), ""), Err("no conversation called ".into()));
}

#[test]
fn leave_takes_the_named_or_the_open_conversation() {
    assert_eq!(leave(&channels(), Some("#random"), Some("C1")), Ok("C2".into()));
    assert_eq!(leave(&channels(), None, Some("C1")), Ok("C1".into()));
    assert_eq!(leave(&channels(), Some("C9"), None), Ok("C9".into()));
    assert_eq!(leave(&channels(), None, None), Err(NOTHING_TO_LEAVE.into()));
}

#[test]
fn tab_completes_what_the_slot_takes() {
    let labels: Vec<String> = channels().iter().map(|c| c.label.clone()).collect();
    let handles: Vec<String> = people().iter().map(|p| p.1.clone()).collect();
    let emoji = vec!["rocket".to_string(), "tada".to_string()];
    let of = |line: &str| completions_for(line, &labels, &handles, &emoji);
    assert_eq!(of("jo").len(), 17, "every verb");
    assert_eq!(of("join #g"), ["#general", "#random"]);
    assert_eq!(of("msg @b"), ["#general", "#random", "@Bob", "@alice"]);
    assert_eq!(of("react r"), ["rocket", "tada"]);
    assert_eq!(of("export "), ["json", "md"]);
    assert!(of("msg @bob hi").is_empty());
}
