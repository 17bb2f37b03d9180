use slack_tui::images::{FileRef, Thumb, Thumbs};

fn picture(id: &str) -> FileRef {
    FileRef { id: id.into(), thumb_url: Some("https://files.slack.com/t.png".into()) }
}

#[test]
fn each_image_is_requested_once_and_settles_ready_or_failed() {
    let mut thumbs: Thumbs<&str> = Thumbs::on();
    let files = [picture("F1"), picture("F2"), FileRef { id: "F3".into(), thumb_url: None }];
    assert_eq!(
        thumbs.wanted(&files),
        vec![("F1".to_string(), "https://files.slack.com/t.png".to_string()), ("F2".into(), "https://files.slack.com/t.png".into())]
    );
    assert!(thumbs.wanted(&files).is_empty());
    assert!(thumbs.loading());
    thumbs.arrived("F1", Some("drawn"));
    assert!(thumbs.loading(), "F2 is still on its way");
    thumbs.arrived("F2", None);
    assert!(!thumbs.loading());
    assert!(matches!(thumbs.get("F1"), Some(Thumb::Ready("drawn"))));
    assert!(matches!(thumbs.get("F2"), Some(Thumb::Failed)));
    thumbs.keep_only(&["F2".to_string()]);
    assert!(thumbs.get("F1").is_none() && thumbs.get("F2").is_some());
    let mut off: Thumbs<&str> = Thumbs::off();
    assert!(off.wanted(&files).is_empty());
    assert!(!off.enabled());
    off.arrived("F1", Some("drawn"));
    assert!(matches!(off.get("F1"), Some(Thumb::Failed)), "a terminal without pictures draws none");
}

#[test]
fn the_same_picture_twice_in_one_list_is_asked_for_once() {
    let mut thumbs: Thumbs<u8> = Thumbs::on();
    assert_eq!(thumbs.wanted(&[picture("F1"), picture("F1")]).len(), 1);
    thumbs.keep_only(&[]);
    assert!(thumbs.get("F1").is_none());
    assert_eq!(thumbs.wanted(&[picture("F1")]).len(), 1, "forgotten pictures are asked for again");
}
