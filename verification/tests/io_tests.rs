use rcore_ulib::io::{
    bulk_result, getc, print, print_line, print_putc, putc, write_bulk, write_bytewise, BulkSink,
    ByteSink, TransportFailure, STDIN, STDOUT,
};
use rcore_ulib::render::Value;

#[test]
fn descriptors_are_fixed() {
    assert_eq!(STDIN, 0);
    assert_eq!(STDOUT, 1);
}

#[test]
fn print_forwards_rendered_text_as_one_bulk_call() {
    let mut sink = BulkSink::new();
    let r = print(
        &mut sink,
        &b"x=%, y=%".to_vec(),
        &vec![Value::Uint(3), Value::Uint(4)],
    );
    assert_eq!(r, Ok(()));
    assert_eq!(sink.calls, vec![b"x=3, y=4".to_vec()]);
    assert_eq!(sink.calls[0].len(), 8);
}

#[test]
fn print_failure_forwards_nothing() {
    let mut sink = BulkSink::new();
    let r = print(&mut sink, &b"a=%b=%".to_vec(), &vec![Value::Uint(1)]);
    assert!(r.is_err());
    assert!(sink.calls.is_empty());
}

#[test]
fn print_keeps_fragment_order() {
    let mut sink = BulkSink::new();
    print(&mut sink, &b"first ".to_vec(), &vec![]).unwrap();
    print(&mut sink, &b"second".to_vec(), &vec![]).unwrap();
    assert_eq!(sink.calls, vec![b"first ".to_vec(), b"second".to_vec()]);
}

#[test]
fn print_line_equals_print_with_trailing_newline() {
    let mut with_wrapper = BulkSink::new();
    print_line(&mut with_wrapper, &b"n=%".to_vec(), &vec![Value::Uint(7)]).unwrap();

    let mut by_hand = BulkSink::new();
    print(&mut by_hand, &b"n=%\n".to_vec(), &vec![Value::Uint(7)]).unwrap();

    assert_eq!(with_wrapper.calls, by_hand.calls);
    assert_eq!(with_wrapper.calls, vec![b"n=7\n".to_vec()]);
}

#[test]
fn print_line_appends_exactly_one_newline() {
    let mut sink = BulkSink::new();
    print_line(&mut sink, &b"done".to_vec(), &vec![]).unwrap();
    assert_eq!(sink.calls, vec![b"done\n".to_vec()]);
}

#[test]
fn print_putc_calls_concatenate_to_the_rendered_text() {
    let mut sink = ByteSink::new();
    let r = print_putc(
        &mut sink,
        &b"x=%, y=%".to_vec(),
        &vec![Value::Uint(3), Value::Uint(4)],
    );
    assert_eq!(r, Ok(()));
    assert_eq!(sink.bytes, b"x=3, y=4".to_vec());
}

#[test]
fn print_putc_twice_appends_two_identical_segments() {
    let mut sink = ByteSink::new();
    print_putc(&mut sink, &b"v=%;".to_vec(), &vec![Value::Uint(12)]).unwrap();
    let first = sink.bytes.clone();
    print_putc(&mut sink, &b"v=%;".to_vec(), &vec![Value::Uint(12)]).unwrap();
    assert_eq!(sink.bytes.len(), 2 * first.len());
    assert_eq!(&sink.bytes[..first.len()], &first[..]);
    assert_eq!(&sink.bytes[first.len()..], &first[..]);
}

#[test]
fn print_putc_failure_forwards_nothing() {
    let mut sink = ByteSink::new();
    let r = print_putc(&mut sink, &b"%".to_vec(), &vec![]);
    assert!(r.is_err());
    assert!(sink.bytes.is_empty());
}

#[test]
fn putc_makes_one_single_byte_call() {
    let mut sink = ByteSink::new();
    putc(&mut sink, 0x41);
    putc(&mut sink, 0x42);
    assert_eq!(sink.bytes, vec![0x41, 0x42]);
}

#[test]
fn write_bytewise_keeps_byte_order() {
    let mut sink = ByteSink::new();
    putc(&mut sink, b'>');
    write_bytewise(&mut sink, &b"abc".to_vec());
    assert_eq!(sink.bytes, b">abc".to_vec());
}

#[test]
fn write_bulk_records_whole_fragments() {
    let mut sink = BulkSink::new();
    write_bulk(&mut sink, b"one".to_vec());
    write_bulk(&mut sink, b"two".to_vec());
    assert_eq!(sink.calls, vec![b"one".to_vec(), b"two".to_vec()]);
}

#[test]
fn getc_reports_end_of_stream_as_no_value() {
    assert_eq!(getc(0, 0), Ok(None));
    assert_eq!(getc(0, 0xFF), Ok(None));
}

#[test]
fn getc_returns_the_buffered_byte_on_one_byte_read() {
    assert_eq!(getc(1, 0x41), Ok(Some(0x41)));
    assert_eq!(getc(1, 0), Ok(Some(0)));
}

#[test]
fn getc_treats_any_other_report_as_fatal() {
    assert_eq!(getc(-1, 0), Err(TransportFailure));
    assert_eq!(getc(-27, 0x41), Err(TransportFailure));
    assert_eq!(getc(2, 0), Err(TransportFailure));
    assert_eq!(getc(isize::MAX, 0), Err(TransportFailure));
    assert_eq!(getc(isize::MIN, 0), Err(TransportFailure));
}

#[test]
fn bulk_result_fails_exactly_on_negative_reports() {
    assert_eq!(bulk_result(0), Ok(()));
    assert_eq!(bulk_result(8), Ok(()));
    assert_eq!(bulk_result(-1), Err(TransportFailure));
    assert_eq!(bulk_result(isize::MIN), Err(TransportFailure));
}
