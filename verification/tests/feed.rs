use sampling_approval::routes::sampling::{feed_frame, sse_frame, FeedItem};

#[test]
fn frame_is_a_data_line_and_a_blank_line() {
    assert_eq!(sse_frame("{\"id\":\"r1\"}"), "data: {\"id\":\"r1\"}\n\n");
    assert_eq!(sse_frame(""), "data: \n\n");
}

#[test]
fn feed_frames_a_serialized_request() {
    let frame = feed_frame(FeedItem::Serialized("{\"id\":\"r1\"}".to_string())).unwrap();
    assert_eq!(frame.as_ref(), b"data: {\"id\":\"r1\"}\n\n");
}

#[test]
fn feed_frame_holds_the_utf8_bytes_of_the_text() {
    let frame = feed_frame(FeedItem::Serialized("\"é→\"".to_string())).unwrap();
    assert_eq!(frame.as_ref(), "data: \"é→\"\n\n".as_bytes());
    assert_eq!(frame.len(), 6 + 1 + 2 + 3 + 1 + 2);
}

#[test]
fn feed_skips_what_cannot_be_written() {
    assert!(feed_frame(FeedItem::Unserializable).is_none());
}

#[test]
fn feed_skips_word_of_lag() {
    assert!(feed_frame(FeedItem::Lagged(0)).is_none());
    assert!(feed_frame(FeedItem::Lagged(17)).is_none());
}
