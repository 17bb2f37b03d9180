use slack_tui::palette::{
    parse, slot, split_last_token, verbs, Command, Format, Palette, PaletteKey, PaletteOutcome, Slot, Snooze,
};

#[test]
fn parses_verbs_and_aliases() {
    assert_eq!(parse(":join #ops"), Ok(Command::Join("#ops".into())));
    assert_eq!(parse("msg @bob on my way"), Ok(Command::Msg { target: "@bob".into(), text: "on my way".into() }));
    assert_eq!(parse("r :rocket:"), Ok(Command::React("rocket".into())));
    assert_eq!(parse("export md"), Ok(Command::Export(Format::Markdown)));
    assert_eq!(parse("export"), Ok(Command::Export(Format::Json)));
    assert_eq!(parse("snooze tomorrow"), Ok(Command::Snooze(Snooze::Tomorrow)));
    assert_eq!(parse("set highlight=#2a2a2a"), Ok(Command::Setting { key: "highlight".into(), value: "#2a2a2a".into() }));
    assert_eq!(parse("leave"), Ok(Command::Leave(None)));
    assert_eq!(parse("q"), Ok(Command::Quit));
}

#[test]
fn errors_are_helpful() {
    assert_eq!(parse("msg @bob"), Err(":msg needs a target and a message".into()));
    assert_eq!(parse("join"), Err(":join needs a channel".into()));
    assert!(parse("jion #x").unwrap_err().contains("did you mean :join"));
    assert_eq!(parse("export pdf"), Err(":export takes json or md, not `pdf`".into()));
}

#[test]
fn slots_follow_the_verb() {
    assert_eq!(slot("jo"), Slot::Verb);
    assert_eq!(slot("join "), Slot::Channel);
    assert_eq!(slot("join #ge"), Slot::Channel);
    assert_eq!(slot("msg @b"), Slot::Conversation);
    assert_eq!(slot("msg @bob hi"), Slot::Free);
    assert_eq!(slot("react ro"), Slot::Emoji);
    assert_eq!(slot("export "), Slot::Literal(vec!["json", "md"]));
}

#[test]
fn tab_cycles_fuzzy_completions() {
    let mut p = Palette::default();
    for c in "join gen".chars() {
        p.type_char(c);
    }
    let candidates = vec!["#general".to_string(), "#engineering".to_string(), "#general-fr".to_string()];
    p.complete(&candidates, false);
    assert_eq!(p.input, "join #general ");
    assert!(p.hint().unwrap().starts_with("[#general]"));
    p.complete(&candidates, false);
    assert_eq!(p.input, "join #general-fr ");
    p.complete(&candidates, true);
    assert_eq!(p.input, "join #general ");
    p.type_char('x');
    assert_eq!(p.hint(), None);
}

#[test]
fn ghost_text_suggests_and_accepts() {
    let mut p = Palette::default();
    let verbs: Vec<String> = verbs().iter().map(|(v, _)| (*v).to_owned()).collect();
    for c in "jo".chars() {
        p.type_char(c);
    }
    assert_eq!(p.ghost(&verbs).as_deref(), Some("in"));
    p.accept(&verbs);
    assert_eq!(p.input, "join ");
    assert_eq!(p.ghost(&verbs), None);
    let channels = vec!["#general".to_string(), "#general-fr".to_string()];
    for c in "#GEN".chars() {
        p.type_char(c);
    }
    assert_eq!(p.ghost(&channels).as_deref(), Some("eral"));
    p.type_char('x');
    assert_eq!(p.ghost(&channels), None);
}

#[test]
fn history_recall() {
    let mut p = Palette::default();
    for c in "go #a".chars() {
        p.type_char(c);
    }
    assert_eq!(p.submit(), "go #a");
    p.input = "go #b".into();
    p.submit();
    p.submit();
    assert_eq!(p.history, ["go #a", "go #b"]);
    p.history_up();
    assert_eq!(p.input, "go #b");
    p.history_up();
    assert_eq!(p.input, "go #a");
    p.history_up();
    assert_eq!(p.input, "go #a");
    p.history_down();
    assert_eq!(p.input, "go #b");
    p.history_down();
    assert_eq!(p.input, "");
}

#[test]
fn every_verb_error_names_what_is_missing() {
    assert_eq!(parse(""), Err("type a command, tab completes".into()));
    assert_eq!(parse("  ::  "), Err("type a command, tab completes".into()));
    assert_eq!(parse("go"), Err(":go needs a channel or @person".into()));
    assert_eq!(parse("react"), Err(":react needs an emoji name".into()));
    assert_eq!(parse("search"), Err(":search needs a query".into()));
    assert_eq!(parse("snooze soon"), Err(":snooze takes 1h, 3h, tomorrow or monday".into()));
    assert_eq!(parse("set theme"), Err(":set needs key=value, e.g. highlight=#2a2a2a".into()));
    assert_eq!(parse("xyzzy"), Err("unknown command :xyzzy".into()));
    assert_eq!(parse("quti"), Err("unknown command :quti, did you mean :quit?".into()));
}

#[test]
fn every_alias_names_its_verb() {
    assert_eq!(parse("j #ops"), Ok(Command::Join("#ops".into())));
    assert_eq!(parse("leave #ops"), Ok(Command::Leave(Some("#ops".into()))));
    assert_eq!(parse("c @bob"), Ok(Command::Go("@bob".into())));
    assert_eq!(parse("dm @bob  hi  there "), Ok(Command::Msg { target: "@bob".into(), text: "hi  there".into() }));
    assert_eq!(parse("del"), Ok(Command::Delete));
    assert_eq!(parse("t"), Ok(Command::Thread));
    assert_eq!(parse("/ deploy failed"), Ok(Command::Search("deploy failed".into())));
    assert_eq!(parse("y"), Ok(Command::Copy));
    assert_eq!(parse("o"), Ok(Command::Open));
    assert_eq!(parse("read"), Ok(Command::Read));
    assert_eq!(parse("z 3"), Ok(Command::Snooze(Snooze::ThreeHours)));
    assert_eq!(parse("snooze week"), Ok(Command::Snooze(Snooze::NextWeek)));
    assert_eq!(parse("snooze 1h"), Ok(Command::Snooze(Snooze::OneHour)));
    assert_eq!(parse("edit"), Ok(Command::Edit));
    assert_eq!(parse("?"), Ok(Command::Help));
    assert_eq!(parse("exit"), Ok(Command::Quit));
    assert_eq!(parse("e markdown"), Ok(Command::Export(Format::Markdown)));
    assert_eq!(parse("set  theme = nord "), Ok(Command::Setting { key: "theme".into(), value: "nord".into() }));
}

#[test]
fn slots_for_literal_arguments() {
    assert_eq!(slot("snooze "), Slot::Literal(vec!["1h", "3h", "tomorrow", "monday"]));
    assert_eq!(slot(":set hi"), Slot::Literal(vec!["theme=", "highlight=", "images=", "show_url="]));
    assert_eq!(slot("go #a "), Slot::Free);
    assert_eq!(slot("thread "), Slot::Free);
}

#[test]
fn the_token_being_typed_is_what_follows_the_last_blank() {
    assert_eq!(split_last_token("react ro"), ("react ".to_string(), "ro".to_string()));
    assert_eq!(split_last_token("join"), (String::new(), "join".to_string()));
    assert_eq!(split_last_token("msg @bob "), ("msg @bob ".to_string(), String::new()));
}

#[test]
fn keys_edit_run_and_close_the_line() {
    let mut p = Palette::default();
    let none: Vec<String> = Vec::new();
    for c in "go #a".chars() {
        assert_eq!(p.key(PaletteKey::Char(c), &none), PaletteOutcome::Stay);
    }
    assert_eq!(p.key(PaletteKey::Backspace, &none), PaletteOutcome::Stay);
    assert_eq!(p.input, "go #");
    assert_eq!(p.key(PaletteKey::Ctrl('u'), &none), PaletteOutcome::Stay);
    assert_eq!(p.input, "go #");
    assert_eq!(p.key(PaletteKey::Char('b'), &none), PaletteOutcome::Stay);
    assert_eq!(p.key(PaletteKey::Enter, &none), PaletteOutcome::Run("go #b".to_string()));
    assert_eq!(p.input, "");
    assert_eq!(p.history, ["go #b"]);
    assert_eq!(p.key(PaletteKey::Up, &none), PaletteOutcome::Stay);
    assert_eq!(p.input, "go #b");
    assert_eq!(p.key(PaletteKey::Down, &none), PaletteOutcome::Stay);
    assert_eq!(p.input, "");
    assert_eq!(p.key(PaletteKey::Backspace, &none), PaletteOutcome::Close);
    assert_eq!(p.key(PaletteKey::Esc, &none), PaletteOutcome::Close);
}

#[test]
fn keys_complete_and_accept() {
    let mut p = Palette::default();
    let channels = vec!["#general".to_string(), "#general-fr".to_string()];
    for c in "join #gen".chars() {
        p.key(PaletteKey::Char(c), &channels);
    }
    assert_eq!(p.key(PaletteKey::Right, &channels), PaletteOutcome::Stay);
    assert_eq!(p.input, "join #general ");
    let mut q = Palette::default();
    for c in "join gen".chars() {
        q.key(PaletteKey::Char(c), &channels);
    }
    q.key(PaletteKey::Tab, &channels);
    assert_eq!(q.input, "join #general ");
    q.key(PaletteKey::Tab, &channels);
    assert_eq!(q.input, "join #general-fr ");
    q.key(PaletteKey::BackTab, &channels);
    assert_eq!(q.input, "join #general ");
}
