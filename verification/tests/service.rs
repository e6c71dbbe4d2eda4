use echo_service::connection::process_request;
use echo_service::connection::run_connection;
use echo_service::counter::State;
use echo_service::response::decimal_string;
use echo_service::response::format_response;
use echo_service::text::decode_input;
use echo_service::waiter::WaitForStateMachine;

#[test]
fn counter_starts_at_zero() {
    let state = State::new();
    assert_eq!(state.current(), 0);
}

#[test]
fn increment_returns_successive_values() {
    let mut state = State::new();
    assert_eq!(state.increment(), 1);
    assert_eq!(state.increment(), 2);
    assert_eq!(state.increment(), 3);
    assert_eq!(state.current(), 3);
}

#[test]
fn decode_passes_plain_text() {
    assert_eq!(decode_input(b"hello"), "hello");
}

#[test]
fn decode_trims_whitespace() {
    assert_eq!(decode_input(b"  hello \r\n"), "hello");
}

#[test]
fn decode_substitutes_placeholder_for_invalid_bytes() {
    // 0xff can start no UTF-8 sequence; decoding must not fail.
    assert_eq!(decode_input(&[0xff, b'h', b'i']), "\u{FFFD}hi");
    // A truncated multi-byte sequence in the middle.
    assert_eq!(decode_input(&[b'a', 0xe2, 0x82, b'b']), "a\u{FFFD}b");
}

#[test]
fn decode_handles_empty_input() {
    assert_eq!(decode_input(b""), "");
}

#[test]
fn decimal_renders_exact_digits() {
    assert_eq!(decimal_string(0), "0");
    assert_eq!(decimal_string(7), "7");
    assert_eq!(decimal_string(10), "10");
    assert_eq!(decimal_string(305), "305");
    assert_eq!(decimal_string(u32::MAX), "4294967295");
}

#[test]
fn first_response_is_exact() {
    assert_eq!(format_response("hello", 1), "OK: 'hello' (request #1)\n");
}

#[test]
fn response_with_multi_digit_count() {
    assert_eq!(format_response("x", 42), "OK: 'x' (request #42)\n");
}

#[test]
fn process_request_increments_and_logs() {
    let mut state = State::new();
    let (log_a, response_a) = process_request(b" alpha \n", &mut state);
    assert_eq!(log_a.text, "alpha");
    assert_eq!(response_a, "OK: 'alpha' (request #1)\n");
    let (log_b, response_b) = process_request(b"beta", &mut state);
    assert_eq!(log_b.text, "beta");
    assert_eq!(response_b, "OK: 'beta' (request #2)\n");
    assert_eq!(state.current(), 2);
}

#[test]
fn two_connections_get_distinct_counts() {
    // Two clients each send one message; the responses bear counts 1 and 2.
    let mut state = State::new();
    let (_, first) = process_request(b"from one", &mut state);
    let (_, second) = process_request(b"from two", &mut state);
    assert_eq!(first, "OK: 'from one' (request #1)\n");
    assert_eq!(second, "OK: 'from two' (request #2)\n");
}

#[test]
fn run_connection_serves_every_chunk() {
    let mut state = State::new();
    let reads = vec![b"one".to_vec(), b"two".to_vec()];
    let responses = run_connection(&reads, &mut state);
    assert_eq!(
        responses,
        vec![
            "OK: 'one' (request #1)\n".to_string(),
            "OK: 'two' (request #2)\n".to_string(),
        ]
    );
    assert_eq!(state.current(), 2);
}

#[test]
fn zero_length_read_closes_the_connection() {
    let mut state = State::new();
    let reads = vec![b"only".to_vec(), Vec::new(), b"after close".to_vec()];
    let responses = run_connection(&reads, &mut state);
    assert_eq!(responses, vec!["OK: 'only' (request #1)\n".to_string()]);
    assert_eq!(state.current(), 1);
}

#[test]
fn waiter_resolves_exactly_once_with_exact_message() {
    let mut waiter = WaitForStateMachine::new();
    assert_eq!(waiter.poll(0), None);
    assert_eq!(waiter.poll(2), None);
    // Crossing the first threshold records the note but stays pending.
    assert_eq!(waiter.poll(3), None);
    assert_eq!(waiter.poll(4), None);
    assert_eq!(
        waiter.poll(5),
        Some("Reached 5 total requests (note from mid-state: reached 3 requests)".to_string())
    );
    // Once done, it never resolves again.
    assert_eq!(waiter.poll(9), None);
    assert_eq!(waiter.poll(100), None);
}

#[test]
fn waiter_never_resolves_below_second_threshold() {
    let mut waiter = WaitForStateMachine::new();
    for _ in 0..50 {
        assert_eq!(waiter.poll(4), None);
    }
}

#[test]
fn waiter_needs_a_poll_in_mid_phase() {
    // The poll that crosses the first threshold stays pending even when the
    // snapshot is already past the second; the next poll resolves.
    let mut waiter = WaitForStateMachine::new();
    assert_eq!(waiter.poll(5), None);
    assert_eq!(
        waiter.poll(5),
        Some("Reached 5 total requests (note from mid-state: reached 3 requests)".to_string())
    );
}
