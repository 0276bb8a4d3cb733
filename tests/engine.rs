use imxrt_uart_log::dma::{
    init, poll, reclaim_in_interrupt, Context, Logger, NotInInterrupt, Poll, Registry,
};
use imxrt_uart_log::loopback::Loopback;
use imxrt_uart_log::ring::RingBuffer;
use imxrt_uart_log::sink::Sink;
use imxrt_uart_log::{Filters, Level, LevelFilter, LoggingConfig};

fn engine(capacity: usize) -> Logger<Loopback> {
    Logger::new(Loopback::new(), RingBuffer::new(capacity), Filters(&[]))
}

fn drain(logger: &mut Logger<Loopback>) {
    let mut rounds = 0;
    while logger.poll() != Poll::Idle {
        logger.finish_transfer();
        rounds += 1;
        assert!(rounds < 100, "the engine never became idle");
    }
}

#[test]
fn two_records_sent_in_order() {
    let mut logger = engine(2048);
    logger.record(Level::Info, "app", "a");
    logger.finish_transfer();
    logger.record(Level::Info, "app", "b");
    logger.finish_transfer();
    assert_eq!(logger.poll(), Poll::Idle);
    assert_eq!(
        logger.sink().sent_bytes(),
        b"[INFO app]: a\r\n[INFO app]: b\r\n"
    );
}

#[test]
fn record_while_running_appends_to_tail() {
    let mut logger = engine(2048);
    logger.record(Level::Info, "app", "a");
    logger.record(Level::Warn, "app", "b");
    // the first transfer is untouched and nothing was sent yet
    assert!(!logger.sink().is_transfer_complete());
    assert!(logger.sink().sent_bytes().is_empty());
    logger.finish_transfer();
    // the tail is restarted once the first transfer is taken back
    assert_eq!(logger.poll(), Poll::Active);
    assert_eq!(logger.sink().sent_bytes(), b"[INFO app]: a\r\n");
    logger.finish_transfer();
    assert_eq!(logger.poll(), Poll::Idle);
    assert_eq!(
        logger.sink().sent_bytes(),
        b"[INFO app]: a\r\n[WARN app]: b\r\n"
    );
}

#[test]
fn fitting_records_all_sent() {
    let mut logger = engine(128);
    let mut expected: Vec<u8> = Vec::new();
    let messages = ["one", "two", "three", "four", "five"];
    for (i, m) in messages.iter().enumerate() {
        logger.record(Level::Debug, "net", m);
        expected.extend_from_slice(format!("[DEBUG net]: {}\r\n", m).as_bytes());
        if i % 2 == 0 {
            logger.finish_transfer();
        }
        logger.poll();
    }
    drain(&mut logger);
    assert_eq!(logger.sink().sent_bytes(), expected.as_slice());
}

#[test]
fn overflow_keeps_prefix() {
    let mut logger = engine(20);
    logger.record(Level::Info, "app", "a");
    logger.record(Level::Info, "app", "b");
    drain(&mut logger);
    // 15 bytes of the first record, then the 5 bytes that still fit
    assert_eq!(logger.sink().sent_bytes(), b"[INFO app]: a\r\n[INFO");
}

#[test]
fn overflow_of_single_record() {
    let mut logger = engine(8);
    logger.record(Level::Error, "app", "too long to fit");
    drain(&mut logger);
    assert_eq!(logger.sink().sent_bytes(), b"[ERROR a");
}

#[test]
fn complete_transfer_frees_room() {
    let mut logger = engine(20);
    logger.record(Level::Info, "app", "a");
    logger.finish_transfer();
    // the complete transfer is taken back before the record goes in
    logger.record(Level::Info, "app", "b");
    drain(&mut logger);
    assert_eq!(
        logger.sink().sent_bytes(),
        b"[INFO app]: a\r\n[INFO app]: b\r\n"
    );
}

#[test]
fn idle_poll_is_stable() {
    let mut logger = engine(64);
    for _ in 0..5 {
        assert_eq!(logger.poll(), Poll::Idle);
    }
    assert!(!logger.sink().is_transfer_complete());
    assert!(logger.sink().sent_bytes().is_empty());
    logger.record(Level::Info, "app", "a");
    logger.finish_transfer();
    assert_eq!(logger.poll(), Poll::Idle);
    assert_eq!(logger.poll(), Poll::Idle);
    assert_eq!(logger.sink().sent_bytes(), b"[INFO app]: a\r\n");
}

#[test]
fn poll_before_completion_stays_active() {
    let mut logger = engine(64);
    logger.record(Level::Info, "app", "a");
    assert_eq!(logger.poll(), Poll::Active);
    assert_eq!(logger.poll(), Poll::Active);
    assert!(logger.sink().sent_bytes().is_empty());
}

#[test]
fn transfer_yields_buffer_once_after_completion() {
    let mut sink = Loopback::new();
    let mut buffer = RingBuffer::new(16);
    assert_eq!(buffer.insert(b"hello"), 5);
    sink.start_transfer(buffer);
    assert!(!sink.is_transfer_complete());
    assert!(sink.transfer_complete().is_none());
    assert_eq!(sink.write_half(b"!"), Some(1));
    sink.finish();
    assert!(sink.is_transfer_complete());
    assert!(sink.is_transfer_interrupt());
    let mut back = sink.transfer_complete().expect("complete");
    assert!(sink.transfer_complete().is_none());
    assert!(!sink.is_transfer_complete());
    assert_eq!(sink.sent_bytes(), b"hello");
    // the tail written during the transfer stays in the buffer
    assert_eq!(back.len(), 1);
    assert_eq!(back.pop(), Some(b'!'));
    sink.transfer_clear_interrupt();
    assert!(!sink.is_transfer_interrupt());
}

#[test]
fn write_half_without_transfer() {
    let mut sink = Loopback::new();
    assert_eq!(sink.write_half(b"abc"), None);
    assert!(sink.transfer_complete().is_none());
}

#[test]
fn reclaim_in_thread_mode_rejected() {
    let mut logger = engine(64);
    logger.record(Level::Info, "app", "a");
    logger.finish_transfer();
    assert_eq!(
        logger.reclaim_in_interrupt(Context::Thread),
        Err(NotInInterrupt)
    );
    // nothing was taken back
    assert!(logger.sink().is_transfer_complete());
    assert!(logger.sink().sent_bytes().is_empty());
    assert_eq!(logger.reclaim_in_interrupt(Context::Interrupt), Ok(()));
    assert_eq!(logger.sink().sent_bytes(), b"[INFO app]: a\r\n");
    assert!(!logger.sink().is_transfer_interrupt());
    assert_eq!(logger.poll(), Poll::Idle);
}

#[test]
fn second_registration_already_set() {
    let mut registry: Registry<Loopback> = Registry::new();
    assert!(registry.logger().is_none());
    let first = LoggingConfig {
        max_level: LevelFilter::Trace,
        filters: &[("app", None)],
    };
    assert!(init(&mut registry, Loopback::new(), RingBuffer::new(64), first).is_ok());
    let second = LoggingConfig {
        max_level: LevelFilter::Trace,
        filters: &[],
    };
    assert!(init(&mut registry, Loopback::new(), RingBuffer::new(64), second).is_err());
    // the first engine, with its filters, is still the one in use
    let logger = registry.logger().expect("registered");
    assert!(logger.enabled(Level::Info, "app", LevelFilter::Trace));
    assert!(!logger.enabled(Level::Info, "other", LevelFilter::Trace));
    assert_eq!(poll(&mut registry), Poll::Idle);
    registry.log(Level::Info, "app", "a", LevelFilter::Trace);
    assert_eq!(poll(&mut registry), Poll::Active);
    assert_eq!(
        reclaim_in_interrupt(&mut registry, Context::Thread),
        Err(NotInInterrupt)
    );
    assert_eq!(reclaim_in_interrupt(&mut registry, Context::Interrupt), Ok(()));
}

#[test]
fn log_applies_filters_and_max_level() {
    let mut logger = Logger::new(
        Loopback::new(),
        RingBuffer::new(256),
        Filters(&[("app", Some(LevelFilter::Warn)), ("i2c", None)]),
    );
    logger.log(Level::Info, "app", "dropped", LevelFilter::Trace);
    logger.log(Level::Error, "spi", "dropped", LevelFilter::Trace);
    logger.log(Level::Trace, "i2c", "dropped", LevelFilter::Debug);
    assert_eq!(logger.poll(), Poll::Idle);
    logger.log(Level::Warn, "app", "kept", LevelFilter::Trace);
    logger.log(Level::Trace, "i2c", "kept", LevelFilter::Trace);
    drain(&mut logger);
    assert_eq!(
        logger.sink().sent_bytes(),
        b"[WARN app]: kept\r\n[TRACE i2c]: kept\r\n"
    );
}

#[test]
fn default_config_has_no_filters() {
    let config = LoggingConfig::default();
    assert!(config.filters.is_empty());
}
