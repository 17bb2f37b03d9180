use slack_tui::sidebar::{
    arrange, badge_text, badges, channel_named, sidebar_rows, visible_channels, Badge, ChannelRow, ConversationCount,
    Counts, Kind, Section, SectionPage, SidebarRow,
};

#[test]
fn arrange_groups_and_sorts_muted_last() {
    let rows = vec![
        ChannelRow::new("C1", "#zeta", Kind::Public),
        ChannelRow::new("C2", "#alpha", Kind::Public),
        ChannelRow::new("C3", "#ops", Kind::Private),
        ChannelRow::new("D1", "@bob", Kind::Dm),
        ChannelRow::new("C4", "#infra", Kind::Public),
    ];
    let sections = vec![
        Section { kind: "stars".into(), name: String::new(), channel_ids_page: SectionPage { channel_ids: vec!["C3".into()] } },
        Section { kind: "standard".into(), name: "Team".into(), channel_ids_page: SectionPage { channel_ids: vec!["C4".into()] } },
        Section { kind: "channels".into(), name: "Channels".into(), channel_ids_page: SectionPage::default() },
    ];
    let arranged = arrange(rows, &sections, &["C2".to_string()]);
    let order: Vec<(&str, &str, bool)> = arranged.iter().map(|r| (r.label.as_str(), r.section.as_str(), r.muted)).collect();
    assert_eq!(
        order,
        [
            ("#ops", "starred", false),
            ("#infra", "team", false),
            ("#zeta", "channels", false),
            ("#alpha", "channels", true),
            ("@bob", "direct", false)
        ]
    );
    let refs: Vec<&ChannelRow> = arranged.iter().collect();
    let rows = sidebar_rows(&refs, true);
    assert_eq!(rows[0], SidebarRow::Header("STARRED".into()));
    assert_eq!(rows[2], SidebarRow::Spacer);
    assert_eq!(rows[3], SidebarRow::Header("TEAM".into()));
    assert_eq!(rows.iter().filter(|r| matches!(r, SidebarRow::Channel(_))).count(), 5);
    assert_eq!(sidebar_rows(&refs, false).len(), 5);
}

#[test]
fn a_new_row_sits_with_channels_or_people() {
    let dm = ChannelRow::new("D1", "@ann", Kind::GroupDm);
    assert_eq!(dm.section, "direct");
    assert!(!dm.muted);
    assert_eq!(ChannelRow::new("C1", "#x", Kind::Private).section, "channels");
}

#[test]
fn labels_sort_without_their_marks_and_case() {
    let rows = vec![
        ChannelRow::new("C1", "#Beta", Kind::Public),
        ChannelRow::new("C2", "🔒alpha", Kind::Private),
        ChannelRow::new("C3", "#gamma", Kind::Public),
    ];
    let labels: Vec<String> = arrange(rows, &[], &[]).into_iter().map(|r| r.label).collect();
    assert_eq!(labels, ["🔒alpha", "#Beta", "#gamma"]);
}

#[test]
fn equal_labels_keep_their_order() {
    let rows = vec![ChannelRow::new("C1", "#same", Kind::Public), ChannelRow::new("C2", "#same", Kind::Public)];
    let ids: Vec<String> = arrange(rows, &[], &[]).into_iter().map(|r| r.id).collect();
    assert_eq!(ids, ["C1", "C2"]);
}

#[test]
fn ungrouped_rows_have_no_headers() {
    let a = ChannelRow::new("C1", "#a", Kind::Public);
    let b = ChannelRow::new("D1", "@b", Kind::Dm);
    assert_eq!(sidebar_rows(&[&a, &b], false), [SidebarRow::Channel(0), SidebarRow::Channel(1)]);
    assert_eq!(
        sidebar_rows(&[&a, &b], true),
        [
            SidebarRow::Header("CHANNELS".into()),
            SidebarRow::Channel(0),
            SidebarRow::Spacer,
            SidebarRow::Header("DIRECT".into()),
            SidebarRow::Channel(1)
        ]
    );
}


fn count(id: &str, has_unreads: bool, mention_count: u64) -> ConversationCount {
    ConversationCount { id: id.into(), has_unreads, mention_count }
}

#[test]
fn badges_keep_what_is_unread_or_mentions_me() {
    let counts = Counts {
        channels: vec![count("C1", true, 0), count("C2", false, 0)],
        ims: vec![count("D1", false, 2)],
        mpims: vec![count("G1", true, 1), count("C1", false, 3)],
    };
    let mut got = badges(&counts);
    got.sort_by(|a, b| a.0.cmp(&b.0));
    assert_eq!(
        got,
        vec![
            ("C1".to_string(), Badge { unread: false, mentions: 3 }),
            ("D1".to_string(), Badge { unread: false, mentions: 2 }),
            ("G1".to_string(), Badge { unread: true, mentions: 1 }),
        ]
    );
    assert_eq!(Badge::default(), Badge { unread: false, mentions: 0 });
}

#[test]
fn the_badge_counts_mentions_and_dots_what_is_unread() {
    assert_eq!(badge_text(3, false, true), "● 3");
    assert_eq!(badge_text(0, true, false), "●");
    assert_eq!(badge_text(0, true, true), "");
    assert_eq!(badge_text(0, false, false), "");
}

#[test]
fn the_filter_narrows_channels_whatever_the_case() {
    let rows = vec![
        ChannelRow::new("C1", "#general", Kind::Public),
        ChannelRow::new("C2", "#Random", Kind::Public),
        ChannelRow::new("D1", "@bob", Kind::Dm),
    ];
    let ids = |f: &str| visible_channels(&rows, f).iter().map(|c| c.id.clone()).collect::<Vec<_>>();
    assert_eq!(ids("ran"), ["C2"]);
    assert_eq!(ids("RAN"), ["C2"]);
    assert_eq!(ids(""), ["C1", "C2", "D1"]);
    assert_eq!(ids("raen"), Vec::<String>::new());
    assert_eq!(ids("#"), ["C1", "C2"]);
    let shown = visible_channels(&rows, "o");
    assert_eq!(sidebar_rows(&shown, false).len(), 2, "#Random and @bob");
}

#[test]
fn a_channel_is_named_with_or_without_its_mark() {
    let rows = vec![
        ChannelRow::new("C1", "#general", Kind::Public),
        ChannelRow::new("G1", "🔒ops", Kind::Private),
        ChannelRow::new("D1", "@bob", Kind::Dm),
    ];
    let id = |name: &str| channel_named(&rows, name).map(|c| c.id.clone());
    assert_eq!(id("#general").as_deref(), Some("C1"));
    assert_eq!(id("GENERAL").as_deref(), Some("C1"));
    assert_eq!(id("##General").as_deref(), Some("C1"));
    assert_eq!(id("ops").as_deref(), Some("G1"));
    assert_eq!(id("#ops").as_deref(), Some("G1"));
    assert_eq!(id("@bob").as_deref(), Some("D1"));
    assert_eq!(id("bob"), None);
    assert_eq!(id("gen"), None);
}
