use ws_endpoint::connection::{Connection, IncomingFrame};
use ws_endpoint::logfmt::{
    banner_text, binary_log_line, disconnect_log_line, format_bytes, listen_addr_text,
    text_log_line, u8_decimal, BROADCAST_CAPACITY, LISTEN_PORT,
};
use ws_endpoint::session::run_connection;

#[test]
fn decimal_single_digit() {
    assert_eq!(u8_decimal(0), "0");
    assert_eq!(u8_decimal(7), "7");
    assert_eq!(u8_decimal(9), "9");
}

#[test]
fn decimal_two_digits() {
    assert_eq!(u8_decimal(10), "10");
    assert_eq!(u8_decimal(42), "42");
    assert_eq!(u8_decimal(99), "99");
}

#[test]
fn decimal_three_digits() {
    assert_eq!(u8_decimal(100), "100");
    assert_eq!(u8_decimal(207), "207");
    assert_eq!(u8_decimal(255), "255");
}

#[test]
fn bytes_empty() {
    assert_eq!(format_bytes(&vec![]), "[]");
}

#[test]
fn bytes_single() {
    assert_eq!(format_bytes(&vec![5]), "[5]");
}

#[test]
fn bytes_several() {
    assert_eq!(format_bytes(&vec![1, 2, 3]), "[1, 2, 3]");
    assert_eq!(format_bytes(&vec![0, 255, 10]), "[0, 255, 10]");
}

#[test]
fn line_builders() {
    assert_eq!(text_log_line("hello"), "Received text: hello");
    assert_eq!(text_log_line(""), "Received text: ");
    assert_eq!(binary_log_line(&vec![1, 2, 3]), "Received binary data: [1, 2, 3]");
    assert_eq!(binary_log_line(&vec![]), "Received binary data: []");
    assert_eq!(disconnect_log_line(), "Client disconnected");
}

#[test]
fn fixed_endpoint_config() {
    assert_eq!(LISTEN_PORT, 3000);
    assert_eq!(BROADCAST_CAPACITY, 16);
    assert_eq!(listen_addr_text(), "127.0.0.1:3000");
    assert_eq!(banner_text(), "WebSocket server running on ws://127.0.0.1:3000");
}

#[test]
fn new_connection_is_open() {
    let c = Connection::new();
    assert!(c.is_open());
    assert!(c.log_lines().is_empty());
}

#[test]
fn text_frame_logged_and_kept_open() {
    let mut c = Connection::new();
    let line = c.handle_frame(&IncomingFrame::Text(String::from("hello")));
    assert_eq!(line.as_deref(), Some("Received text: hello"));
    assert!(c.is_open());
    assert_eq!(c.log_lines().len(), 1);
    assert_eq!(c.log_lines()[0], "Received text: hello");
}

#[test]
fn binary_frame_logged_and_kept_open() {
    let mut c = Connection::new();
    let line = c.handle_frame(&IncomingFrame::Binary(vec![1, 2, 3]));
    assert_eq!(line.as_deref(), Some("Received binary data: [1, 2, 3]"));
    assert!(c.is_open());
    assert_eq!(c.log_lines()[0], "Received binary data: [1, 2, 3]");
}

#[test]
fn other_frames_ignored() {
    let mut c = Connection::new();
    let line = c.handle_frame(&IncomingFrame::Other);
    assert_eq!(line, None);
    assert!(c.is_open());
    assert!(c.log_lines().is_empty());
}

#[test]
fn close_frame_closes_and_nothing_follows() {
    let mut c = Connection::new();
    let line = c.handle_frame(&IncomingFrame::Close);
    assert_eq!(line.as_deref(), Some("Client disconnected"));
    assert!(!c.is_open());
    let after = c.handle_frame(&IncomingFrame::Text(String::from("late")));
    assert_eq!(after, None);
    assert_eq!(c.log_lines().len(), 1);
    assert_eq!(c.log_lines()[0], "Client disconnected");
}

#[test]
fn end_of_stream_closes_silently() {
    let mut c = Connection::new();
    c.handle_frame(&IncomingFrame::Text(String::from("x")));
    c.end_of_stream();
    assert!(!c.is_open());
    assert_eq!(c.log_lines().len(), 1);
    assert_eq!(c.log_lines()[0], "Received text: x");
}

#[test]
fn run_session_stops_at_close() {
    let frames = vec![
        IncomingFrame::Text(String::from("a")),
        IncomingFrame::Other,
        IncomingFrame::Close,
        IncomingFrame::Text(String::from("never")),
    ];
    let c = run_connection(&frames);
    assert!(!c.is_open());
    assert_eq!(c.log_lines().len(), 2);
    assert_eq!(c.log_lines()[0], "Received text: a");
    assert_eq!(c.log_lines()[1], "Client disconnected");
}

#[test]
fn run_session_end_of_stream() {
    let frames = vec![
        IncomingFrame::Text(String::from("a")),
        IncomingFrame::Binary(vec![9]),
    ];
    let c = run_connection(&frames);
    assert!(!c.is_open());
    assert_eq!(c.log_lines().len(), 2);
    assert_eq!(c.log_lines()[0], "Received text: a");
    assert_eq!(c.log_lines()[1], "Received binary data: [9]");
}

#[test]
fn connections_are_isolated() {
    let mut a = Connection::new();
    let mut b = Connection::new();
    a.handle_frame(&IncomingFrame::Text(String::from("only for a")));
    assert!(b.is_open());
    assert!(b.log_lines().is_empty());
    a.handle_frame(&IncomingFrame::Close);
    assert!(b.is_open());
    assert!(b.log_lines().is_empty());
    b.handle_frame(&IncomingFrame::Binary(vec![4, 5]));
    assert_eq!(a.log_lines().len(), 2);
    assert_eq!(a.log_lines()[0], "Received text: only for a");
    assert_eq!(a.log_lines()[1], "Client disconnected");
    assert_eq!(b.log_lines().len(), 1);
    assert_eq!(b.log_lines()[0], "Received binary data: [4, 5]");
}

#[test]
fn scenario_hello_then_close() {
    let mut c = Connection::new();
    let first = c.handle_frame(&IncomingFrame::Text(String::from("hello")));
    assert_eq!(first.as_deref(), Some("Received text: hello"));
    assert!(c.is_open());
    let second = c.handle_frame(&IncomingFrame::Close);
    assert_eq!(second.as_deref(), Some("Client disconnected"));
    assert!(!c.is_open());
}
