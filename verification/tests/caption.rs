use idlescreen::caption::{caption_text, clear_caption, publish_caption, with_caption};

#[test]
fn publish_read_and_clear() {
    let mut slot = String::from("old");
    publish_caption(&mut slot, "Now playing: storm");
    assert_eq!(caption_text(&slot), "Now playing: storm");
    assert_eq!(with_caption(&slot, |s| s.len()), 18);
    clear_caption(&mut slot);
    assert_eq!(caption_text(&slot), "");
}
