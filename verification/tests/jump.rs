use slack_tui::jump::{Candidate, Jump, JumpKey, JumpOutcome, Target};
use slack_tui::sidebar::{ChannelRow, Kind};

fn jump() -> Jump {
    Jump {
        channels: vec![
            Candidate { label: "#general".into(), target: Target::Channel("C1".into()) },
            Candidate { label: "#vivien-vault".into(), target: Target::Channel("C2".into()) },
        ],
        people: vec![Candidate { label: "@vivien".into(), target: Target::Person("U1".into()) }],
        threads: vec![Candidate {
            label: "#general · deploy plan".into(),
            target: Target::Thread { channel: "C1".into(), ts: "1".into() },
        }],
        ..Default::default()
    }
}

#[test]
fn empty_query_lists_everything_in_order() {
    let labels: Vec<String> = jump().matches().into_iter().map(|c| c.label).collect();
    assert_eq!(labels, ["#general", "#vivien-vault", "@vivien", "#general · deploy plan"]);
}

#[test]
fn query_ranks_and_selection_follows() {
    let mut j = jump();
    for c in "vvt".chars() {
        j.type_char(c);
    }
    assert_eq!(j.selected_candidate().unwrap().target, Target::Channel("C2".into()));
    j.move_by(5);
    assert_eq!(j.selected, j.matches().len() - 1);
    j.backspace();
    assert_eq!(j.selected, 0);
}

#[test]
fn search_prefix_has_no_matches() {
    let mut j = jump();
    j.type_char('>');
    assert!(j.is_search());
    assert!(j.matches().is_empty());
}

#[test]
fn a_long_list_shows_twelve_rows() {
    let mut j = Jump::default();
    j.channels = (0..20).map(|n| Candidate { label: format!("#c{n}"), target: Target::Channel(format!("C{n}")) }).collect();
    assert_eq!(j.matches().len(), 12);
    j.move_by(-3);
    assert_eq!(j.selected, 0);
}

#[test]
fn keys_move_type_and_go_where_the_match_leads() {
    let mut j = jump();
    assert_eq!(j.key(JumpKey::Down), JumpOutcome::Stay);
    assert_eq!(j.key(JumpKey::Ctrl('n')), JumpOutcome::Stay);
    assert_eq!(j.selected, 2);
    assert_eq!(j.key(JumpKey::BackTab), JumpOutcome::Stay);
    assert_eq!(j.selected, 1);
    assert_eq!(j.key(JumpKey::Enter), JumpOutcome::Go(Target::Channel("C2".into())));
    for c in "deploy".chars() {
        j.key(JumpKey::Char(c));
    }
    assert_eq!(j.key(JumpKey::Enter), JumpOutcome::Go(Target::Thread { channel: "C1".into(), ts: "1".into() }));
    assert_eq!(j.key(JumpKey::Esc), JumpOutcome::Close);
}

#[test]
fn a_search_query_is_sent_trimmed_and_an_empty_one_just_closes() {
    let mut j = jump();
    for c in "> deploy failed ".chars() {
        j.key(JumpKey::Char(c));
    }
    assert_eq!(j.key(JumpKey::Enter), JumpOutcome::Search("deploy failed".into()));
    let mut empty = jump();
    empty.key(JumpKey::Char('>'));
    assert_eq!(empty.key(JumpKey::Enter), JumpOutcome::Close);
    let mut none = jump();
    for c in "zzzz".chars() {
        none.key(JumpKey::Char(c));
    }
    assert_eq!(none.key(JumpKey::Enter), JumpOutcome::Stay);
}

#[test]
fn ctrl_k_lists_every_channel_and_person() {
    let channels = vec![
        ChannelRow::new("C1", "#general", Kind::Public),
        ChannelRow::new("C2", "#random", Kind::Public),
    ];
    let people = vec![("U1".to_string(), "bob".to_string())];
    let jump = Jump::open(&channels, &people);
    assert_eq!(jump.query, "");
    assert_eq!(jump.channels.iter().map(|c| c.label.as_str()).collect::<Vec<_>>(), ["#general", "#random"]);
    assert_eq!(jump.channels[1].target, Target::Channel("C2".into()));
    assert_eq!(jump.people[0].label, "@bob");
    assert_eq!(jump.people[0].target, Target::Person("U1".into()));
    assert!(jump.threads.is_empty());
    assert_eq!(jump.matches().len(), 3);
}
