use loempia::transport::{check_response, request, Exchange};
use loempia::{Command, Error};

fn feed(exchange: &mut Exchange, bytes: &[u8]) -> Vec<bool> {
    bytes.iter().map(|&b| exchange.accept(b)).collect()
}

#[test]
fn request_is_text_and_carriage_return() {
    let command = Command::SM { duration: 1000, axis_step_1: 1, axis_step_2: Some(-1) };
    assert_eq!(request(&command), b"SM,1000,1,-1\r".to_vec());
    assert_eq!(request(&Command::V), b"V\r".to_vec());
    assert_eq!(request(&Command::Any("SP,1".to_string())), b"SP,1\r".to_vec());
}

#[test]
fn request_encodes_other_characters() {
    let command = Command::ST { name: "é".to_string() };
    assert_eq!(request(&command), vec![b'S', b'T', b',', 0xc3, 0xa9, b'\r']);
}

#[test]
fn answer_ends_at_carriage_return_line_feed() {
    let mut exchange = Exchange::new(Command::V);
    assert!(exchange.received.is_empty());
    assert_eq!(feed(&mut exchange, b"OK\r\n"), vec![false, false, false, true]);
    assert_eq!(exchange.received, b"OK\r\n".to_vec());
    assert_eq!(exchange.command, Command::V);
}

#[test]
fn line_feed_alone_does_not_end_the_answer() {
    let mut exchange = Exchange::new(Command::QT);
    assert_eq!(feed(&mut exchange, b"\n\nA\n\r"), vec![false, false, false, false, false]);
    assert!(exchange.accept(b'\n'));
}

#[test]
fn shortest_answer() {
    let mut exchange = Exchange::new(Command::R);
    assert!(!exchange.accept(b'\r'));
    assert!(exchange.accept(b'\n'));
    assert!(exchange.finish().is_ok());
}

#[test]
fn answer_with_bang_is_a_device_error() {
    let mut exchange = Exchange::new(Command::TP { duration: Some(15) });
    feed(&mut exchange, b"!8 Err: unknown command\r\n");
    match exchange.finish() {
        Err(Error::ErrorResponse(command, response)) => {
            assert_eq!(command, Command::TP { duration: Some(15) });
            assert_eq!(response, "!8 Err: unknown command\r\n");
        }
        other => panic!("unexpected {:?}", other),
    }
}

#[test]
fn any_other_answer_is_success() {
    for answer in [&b"OK\r\n"[..], b"\r\n", b" !\r\n", b"EBBv13_and_above\r\n", b"0,0\r\n"] {
        let mut exchange = Exchange::new(Command::QS);
        feed(&mut exchange, answer);
        assert!(exchange.finish().is_ok());
    }
}

#[test]
fn bytes_become_characters_one_for_one() {
    let mut exchange = Exchange::new(Command::A);
    feed(&mut exchange, &[b'!', 0xe9, 0xff, b'\r', b'\n']);
    match exchange.finish() {
        Err(Error::ErrorResponse(_, response)) => {
            assert_eq!(response, "!\u{e9}\u{ff}\r\n");
        }
        other => panic!("unexpected {:?}", other),
    }
}

#[test]
fn check_response_looks_at_the_first_character_only() {
    assert!(check_response(Command::V, "OK\r\n".to_string()).is_ok());
    assert!(check_response(Command::V, String::new()).is_ok());
    assert!(check_response(Command::V, "O!\r\n".to_string()).is_ok());
    match check_response(Command::Any("SP,1".to_string()), "!\r\n".to_string()) {
        Err(Error::ErrorResponse(command, response)) => {
            assert_eq!(command, Command::Any("SP,1".to_string()));
            assert_eq!(response, "!\r\n");
        }
        other => panic!("unexpected {:?}", other),
    }
}
