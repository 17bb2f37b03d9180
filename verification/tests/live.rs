use slack_tui::live::{adjust_reaction, Reaction};

#[test]
fn repeated_reaction_events_are_idempotent() {
    let mut reactions = vec![];
    adjust_reaction(&mut reactions, "tada", "U1", true);
    adjust_reaction(&mut reactions, "tada", "U1", true);
    assert_eq!(reactions, vec![Reaction { name: "tada".into(), count: 1, users: vec!["U1".into()] }]);
    adjust_reaction(&mut reactions, "tada", "U9", false);
    assert_eq!(reactions[0].count, 1);
    adjust_reaction(&mut reactions, "tada", "U1", false);
    adjust_reaction(&mut reactions, "tada", "U1", false);
    assert!(reactions.is_empty());
}

#[test]
fn a_second_person_joins_a_reaction_and_leaves_it_again() {
    let mut reactions = vec![Reaction { name: "eyes".into(), count: 1, users: vec!["U1".into()] }];
    adjust_reaction(&mut reactions, "eyes", "U2", true);
    assert_eq!(reactions, vec![Reaction { name: "eyes".into(), count: 2, users: vec!["U1".into(), "U2".into()] }]);
    adjust_reaction(&mut reactions, "eyes", "U1", false);
    assert_eq!(reactions, vec![Reaction { name: "eyes".into(), count: 1, users: vec!["U2".into()] }]);
}

#[test]
fn a_new_name_goes_at_the_end() {
    let mut reactions = vec![Reaction { name: "eyes".into(), count: 1, users: vec!["U1".into()] }];
    adjust_reaction(&mut reactions, "fire", "U2", true);
    assert_eq!(reactions[1], Reaction { name: "fire".into(), count: 1, users: vec!["U2".into()] });
    adjust_reaction(&mut reactions, "tada", "U2", false);
    assert_eq!(reactions.len(), 2);
}

#[test]
fn an_event_leaves_the_other_reactions_as_they_were() {
    let eyes = Reaction { name: "eyes".into(), count: 3, users: vec!["U1".into()] };
    let fire = Reaction { name: "fire".into(), count: 1, users: vec!["U4".into()] };
    let tada = Reaction { name: "tada".into(), count: 2, users: vec!["U2".into(), "U3".into()] };
    let mut reactions = vec![eyes.clone(), tada, fire.clone()];
    adjust_reaction(&mut reactions, "tada", "U2", false);
    assert_eq!(reactions[0], eyes);
    assert_eq!(reactions[1], Reaction { name: "tada".into(), count: 1, users: vec!["U3".into()] });
    assert_eq!(reactions[2], fire);
    adjust_reaction(&mut reactions, "tada", "U3", false);
    assert_eq!(reactions, vec![eyes, fire]);
}
