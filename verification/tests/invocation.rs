use youtubei_native::invocation::MAX_RESULT;
use youtubei_native::{Error, Invocation};

fn write_all(invocation: &mut Invocation, bytes: &[u8]) {
    for (i, b) in bytes.iter().enumerate() {
        invocation.output_byte(i as i32, *b as i32);
    }
}

#[test]
fn input_is_read_back_byte_by_byte() {
    let invocation = Invocation::start("parseText", "{\"a\":1}");
    assert_eq!(invocation.input_length(1), 9);
    assert_eq!(invocation.input_length(0), 7);
    let method: Vec<u8> = (0..9).map(|i| invocation.input_byte(1, i) as u8).collect();
    assert_eq!(method, b"parseText");
    let input: Vec<u8> = (0..7).map(|i| invocation.input_byte(2, i) as u8).collect();
    assert_eq!(input, b"{\"a\":1}");
    assert_eq!(invocation.input_byte(0, 7), 0);
    assert_eq!(invocation.input_byte(0, -1), 0);
    assert_eq!(invocation.input_byte(1, 100), 0);
}

#[test]
fn completed_result_comes_back_as_text() {
    let text = "after error\u{0}\u{1F980}";
    let mut invocation = Invocation::start("parseText", "{}");
    write_all(&mut invocation, text.as_bytes());
    invocation.complete(0, text.len() as i32);
    assert_eq!(invocation.settle(true).unwrap(), text);
}

#[test]
fn nonzero_status_is_a_javascript_error() {
    let mut invocation = Invocation::start("parseText", "{");
    write_all(&mut invocation, b"SyntaxError");
    invocation.complete(1, 11);
    match invocation.settle(true) {
        Err(Error::Javascript(m)) => assert_eq!(m, "SyntaxError"),
        other => panic!("unexpected {:?}", other),
    }
}

#[test]
fn failed_driver_is_an_initialization_error() {
    let mut invocation = Invocation::start("sessionName", "");
    write_all(&mut invocation, b"WEB");
    invocation.complete(0, 3);
    match invocation.settle(false) {
        Err(Error::Initialization(m)) => {
            assert_eq!(m, "Native unit failed; see stderr for its exception")
        }
        other => panic!("unexpected {:?}", other),
    }
}

#[test]
fn length_mismatch_is_incomplete_output() {
    let mut invocation = Invocation::start("sessionName", "");
    write_all(&mut invocation, b"WEB");
    invocation.complete(0, 4);
    match invocation.settle(true) {
        Err(Error::InvalidOutput(m)) => {
            assert_eq!(m, "Native result was incomplete or exceeded 8 MiB")
        }
        other => panic!("unexpected {:?}", other),
    }
    let mut negative = Invocation::start("sessionName", "");
    negative.complete(0, -1);
    assert!(matches!(negative.settle(true), Err(Error::InvalidOutput(_))));
    let never_completed = Invocation::start("sessionName", "");
    assert!(matches!(never_completed.settle(true), Err(Error::InvalidOutput(_))));
}

#[test]
fn invalid_utf8_is_invalid_output() {
    let mut invocation = Invocation::start("parseText", "{}");
    write_all(&mut invocation, &[0x61, 0xff, 0x62]);
    invocation.complete(0, 3);
    match invocation.settle(true) {
        Err(Error::InvalidOutput(m)) => {
            assert_eq!(m, "invalid utf-8 sequence of 1 bytes from index 1")
        }
        other => panic!("unexpected {:?}", other),
    }
}

#[test]
fn out_of_order_bytes_are_ignored() {
    let mut invocation = Invocation::start("m", "");
    invocation.output_byte(1, b'x' as i32);
    invocation.output_byte(-1, b'x' as i32);
    invocation.output_byte(0, b'o' as i32);
    invocation.output_byte(0, b'z' as i32);
    invocation.output_byte(1, b'k' as i32 + 256);
    assert_eq!(invocation.result_len(), 2);
    invocation.complete(0, 2);
    assert_eq!(invocation.settle(true).unwrap(), "ok");
}

#[test]
fn result_stops_at_the_limit() {
    let mut invocation = Invocation::start("m", "");
    for i in 0..=MAX_RESULT {
        invocation.output_byte(i as i32, b'a' as i32);
    }
    assert_eq!(invocation.result_len(), MAX_RESULT);
    invocation.complete(0, (MAX_RESULT + 1) as i32);
    assert!(matches!(invocation.settle(true), Err(Error::InvalidOutput(_))));
}

#[test]
fn idle_invocation_has_nothing_to_read() {
    let invocation = Invocation::new();
    assert_eq!(invocation.input_length(1), 0);
    assert_eq!(invocation.input_length(0), 0);
    assert_eq!(invocation.input_byte(0, 0), 0);
    assert_eq!(invocation.result_len(), 0);
}
