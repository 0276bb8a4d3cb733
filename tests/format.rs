use imxrt_uart_log::record::format_record;
use imxrt_uart_log::ring::RingBuffer;
use imxrt_uart_log::{Filters, Level, LevelFilter};

#[test]
fn wire_format_of_each_level() {
    assert_eq!(format_record(Level::Error, "m", "x"), b"[ERROR m]: x\r\n".to_vec());
    assert_eq!(format_record(Level::Warn, "m", "x"), b"[WARN m]: x\r\n".to_vec());
    assert_eq!(format_record(Level::Info, "m", "x"), b"[INFO m]: x\r\n".to_vec());
    assert_eq!(format_record(Level::Debug, "m", "x"), b"[DEBUG m]: x\r\n".to_vec());
    assert_eq!(format_record(Level::Trace, "m", "x"), b"[TRACE m]: x\r\n".to_vec());
}

#[test]
fn wire_format_keeps_newlines_and_empty_message() {
    assert_eq!(
        format_record(Level::Info, "log_uart", "a\nb"),
        b"[INFO log_uart]: a\nb\r\n".to_vec()
    );
    assert_eq!(format_record(Level::Info, "app", ""), b"[INFO app]: \r\n".to_vec());
}

#[test]
fn level_labels() {
    assert_eq!(Level::Warn.label(), b"WARN");
    assert_eq!(Level::Trace.label(), b"TRACE");
}

#[test]
fn level_filter_order() {
    assert!(Level::Info.passes(LevelFilter::Info));
    assert!(Level::Error.passes(LevelFilter::Info));
    assert!(!Level::Debug.passes(LevelFilter::Info));
    assert!(!Level::Error.passes(LevelFilter::Off));
    assert!(Level::Trace.passes(LevelFilter::Trace));
}

#[test]
fn filters_select_targets() {
    let none = Filters(&[]);
    assert!(none.is_enabled(Level::Trace, "anything"));
    let some = Filters(&[("i2c", None), ("spi", Some(LevelFilter::Warn))]);
    assert!(some.is_enabled(Level::Trace, "i2c"));
    assert!(some.is_enabled(Level::Error, "spi"));
    assert!(some.is_enabled(Level::Warn, "spi"));
    assert!(!some.is_enabled(Level::Info, "spi"));
    assert!(!some.is_enabled(Level::Error, "motor"));
    assert!(!some.is_enabled(Level::Error, "i2"));
}

#[test]
fn ring_drops_excess() {
    let mut ring = RingBuffer::new(4);
    assert_eq!(ring.capacity(), 4);
    assert!(ring.is_empty());
    assert_eq!(ring.insert(&[1, 2, 3, 4, 5, 6]), 4);
    assert_eq!(ring.len(), 4);
    assert_eq!(ring.insert(&[7]), 0);
    assert!(!ring.push(8));
    assert_eq!(ring.pop(), Some(1));
    assert_eq!(ring.pop(), Some(2));
    assert_eq!(ring.pop(), Some(3));
    assert_eq!(ring.pop(), Some(4));
    assert_eq!(ring.pop(), None);
}

#[test]
fn ring_wraps_around() {
    let mut ring = RingBuffer::new(4);
    assert_eq!(ring.insert(&[1, 2, 3]), 3);
    assert_eq!(ring.pop(), Some(1));
    assert_eq!(ring.pop(), Some(2));
    assert_eq!(ring.insert(&[4, 5, 6, 7]), 3);
    let mut out = Vec::new();
    while let Some(b) = ring.pop() {
        out.push(b);
    }
    assert_eq!(out, vec![3, 4, 5, 6]);
}

#[test]
fn ring_of_zero_capacity() {
    let mut ring = RingBuffer::new(0);
    assert_eq!(ring.insert(&[1]), 0);
    assert!(!ring.push(1));
    assert_eq!(ring.pop(), None);
    assert!(ring.is_empty());
}
