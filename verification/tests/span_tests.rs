use livedoc::id::LiveFileId;
use livedoc::span::Span;

#[test]
fn span_round_trips_in_range() {
    let span = Span::new(LiveFileId::index(3), 100, 250);
    assert_eq!(span.start(), 100);
    assert_eq!(span.end(), 250);
    assert_eq!(span.len(), 150);
    assert_eq!(span.live_file_id().to_index(), 3);
}

#[test]
fn span_round_trips_at_field_limits() {
    let span = Span::new(LiveFileId::index(0xffff), 0xff_ffff, 0xff_ffff);
    assert_eq!(span.start(), 0xff_ffff);
    assert_eq!(span.end(), 0xff_ffff);
    assert_eq!(span.len(), 0);
    assert_eq!(span.live_file_id().to_index(), 0xffff);
}

#[test]
fn span_truncates_out_of_range_offsets() {
    // offsets wrap at 2^24 and files at 2^16, a documented limit
    let span = Span::new(LiveFileId::index(0x10002), 0x100_0005, 0x100_0007);
    assert_eq!(span.start(), 5);
    assert_eq!(span.end(), 7);
    assert_eq!(span.live_file_id().to_index(), 2);
}

#[test]
fn zero_span_is_default() {
    let span = Span::default();
    assert_eq!(span.start(), 0);
    assert_eq!(span.end(), 0);
    assert_eq!(span.live_file_id().to_index(), 0);
}
