use gleam_repl::buffer::{Buffer, CAPACITY};
use gleam_repl::expect::{Session, Step, Then};

/// Plays a wait of `session` on `chunks`, each the outcome of one read; what is
/// written out goes to `output`.
fn wait(session: &mut Session, token: &str, chunks: &mut Vec<&[u8]>, output: &mut Vec<u8>) -> bool {
    let mut step = session.expect(token);
    loop {
        match step {
            Step::Forward { len, consume, then } => {
                if let Some(bytes) = session.output(len) {
                    output.extend_from_slice(&bytes);
                }
                step = session.forwarded(consume, then);
            }
            Step::Read { room } => {
                let chunk: &[u8] = if chunks.is_empty() { b"" } else { chunks.remove(0) };
                assert!(chunk.len() <= room);
                step = session.received(token, chunk);
            }
            Step::Finished { found } => return found,
        }
    }
}

#[test]
fn test() {
    let mut chunks: Vec<&[u8]> = vec![b"Some STOPwordsSTO", b"Pother STOPend\n"];
    let mut output = Vec::<u8>::new();
    let mut session = Session::new();
    while wait(&mut session, "STOP", &mut chunks, &mut output) {}
    assert_eq!("Some wordsother end\n", String::from_utf8(output).unwrap());
}

#[test]
fn token_cut_into_single_bytes_is_found() {
    let text = b"abSTSTOPcd";
    let mut chunks: Vec<&[u8]> = text.chunks(1).collect();
    let mut output = Vec::<u8>::new();
    let mut session = Session::new();
    assert!(wait(&mut session, "STOP", &mut chunks, &mut output));
    assert_eq!(b"abST".to_vec(), output);
    assert_eq!(2, chunks.len());
    assert!(!wait(&mut session, "STOP", &mut chunks, &mut output));
    assert_eq!(b"abSTcd".to_vec(), output);
}

#[test]
fn cutting_the_input_makes_no_difference() {
    let text: &[u8] = b"xxSTOPySTSTOPzSTO";
    for size in 1..text.len() + 1 {
        let mut chunks: Vec<&[u8]> = text.chunks(size).collect();
        let mut output = Vec::<u8>::new();
        let mut session = Session::new();
        let mut found = 0;
        while wait(&mut session, "STOP", &mut chunks, &mut output) {
            found += 1;
        }
        assert_eq!(2, found);
        assert_eq!("xxySTzSTO", String::from_utf8(output).unwrap());
    }
}

#[test]
fn nothing_is_written_without_piping() {
    let mut chunks: Vec<&[u8]> = vec![b"oneSTOPtwo"];
    let mut output = Vec::<u8>::new();
    let mut session = Session::new();
    session.pipe_output(false);
    assert!(wait(&mut session, "STOP", &mut chunks, &mut output));
    assert!(output.is_empty());
    session.pipe_output(true);
    assert!(!wait(&mut session, "STOP", &mut chunks, &mut output));
    assert_eq!("two", String::from_utf8(output).unwrap());
}

#[test]
fn end_of_input_gives_the_rest() {
    let mut chunks: Vec<&[u8]> = vec![];
    let mut output = Vec::<u8>::new();
    let mut session = Session::new();
    assert!(!wait(&mut session, "STOP", &mut chunks, &mut output));
    assert!(output.is_empty());
    let mut chunks: Vec<&[u8]> = vec![b"STO"];
    assert!(!wait(&mut session, "STOP", &mut chunks, &mut output));
    assert_eq!("STO", String::from_utf8(output).unwrap());
}

#[test]
fn steps_of_a_wait() {
    let mut session = Session::new();
    assert_eq!(Step::Forward { len: 0, consume: 0, then: Then::Read }, session.expect("STOP"));
    assert_eq!(Step::Read { room: CAPACITY }, session.forwarded(0, Then::Read));
    assert_eq!(
        Step::Forward { len: 7, consume: 7, then: Then::Read },
        session.received("STOP", b"1234567STO")
    );
    assert_eq!(Some(b"1234567".to_vec()), session.output(7));
    assert_eq!(Step::Read { room: CAPACITY - 3 }, session.forwarded(7, Then::Read));
    assert_eq!(
        Step::Forward { len: 0, consume: 4, then: Then::Found },
        session.received("STOP", b"P8")
    );
    assert_eq!(Step::Finished { found: true }, session.forwarded(4, Then::Found));
    assert_eq!(Some(b"8".to_vec()), session.output(1));
    assert_eq!(
        Step::Forward { len: 1, consume: 1, then: Then::Ended },
        session.received("STOP", b"")
    );
    assert_eq!(Step::Finished { found: false }, session.forwarded(1, Then::Ended));
}

#[test]
fn a_token_of_the_size_of_the_buffer_is_found() {
    let token = "t".repeat(CAPACITY);
    let text = format!("{}{}{}", "a".repeat(10), token, "b");
    let mut session = Session::new();
    let mut rest = text.as_bytes();
    let mut output = Vec::<u8>::new();
    let mut step = session.expect(&token);
    let found = loop {
        match step {
            Step::Forward { len, consume, then } => {
                output.extend_from_slice(&session.output(len).unwrap());
                step = session.forwarded(consume, then);
            }
            Step::Read { room } => {
                assert!(room > 0);
                let n = room.min(rest.len());
                let chunk = &rest[..n];
                rest = &rest[n..];
                step = session.received(&token, chunk);
            }
            Step::Finished { found } => break found,
        }
    };
    assert!(found);
    assert_eq!("a".repeat(10), String::from_utf8(output).unwrap());
}

/// Plays a wait on `rest`, each read taking as much as there is room for.
fn wait_greedily(session: &mut Session, token: &str, rest: &mut &[u8], output: &mut Vec<u8>) -> bool {
    let mut step = session.expect(token);
    loop {
        match step {
            Step::Forward { len, consume, then } => {
                output.extend_from_slice(&session.output(len).unwrap());
                step = session.forwarded(consume, then);
            }
            Step::Read { room } => {
                assert!(0 < room && room <= CAPACITY);
                assert!(session.buffered().len() < token.len());
                let (chunk, left) = rest.split_at(room.min(rest.len()));
                *rest = left;
                step = session.received(token, chunk);
            }
            Step::Finished { found } => return found,
        }
    }
}

#[test]
fn a_token_longer_than_the_buffer_is_found() {
    let token = "x".repeat(CAPACITY + 1);
    let mut session = Session::new();
    let mut rest = token.as_bytes();
    let mut output = Vec::<u8>::new();
    assert!(wait_greedily(&mut session, &token, &mut rest, &mut output));
    assert!(output.is_empty());
    assert!(session.buffered().is_empty());
    assert!(!wait_greedily(&mut session, &token, &mut rest, &mut output));
    assert!(output.is_empty());
}

#[test]
fn a_token_of_several_buffers_is_found_within_text() {
    let token = format!("{}!", "x".repeat(3 * CAPACITY));
    let text = format!("{}{token}{}", "x".repeat(10), "y".repeat(2 * CAPACITY));
    let mut session = Session::new();
    let mut rest = text.as_bytes();
    let mut output = Vec::<u8>::new();
    assert!(wait_greedily(&mut session, &token, &mut rest, &mut output));
    assert_eq!("x".repeat(10), String::from_utf8(output.clone()).unwrap());
    assert!(!wait_greedily(&mut session, &token, &mut rest, &mut output));
    assert_eq!(text.replace(&token, ""), String::from_utf8(output).unwrap());
}

#[test]
fn a_long_token_that_is_cut_short_is_passed_on() {
    let token = "x".repeat(CAPACITY + 1);
    let text = "x".repeat(CAPACITY);
    let mut session = Session::new();
    let mut rest = text.as_bytes();
    let mut output = Vec::<u8>::new();
    assert!(!wait_greedily(&mut session, &token, &mut rest, &mut output));
    assert_eq!(text, String::from_utf8(output).unwrap());
}

#[test]
fn steps_of_a_wait_for_a_long_token() {
    let token = "x".repeat(CAPACITY + 1);
    let mut session = Session::new();
    let read = Step::Forward { len: 0, consume: 0, then: Then::Read };
    assert_eq!(read, session.expect(&token));
    assert_eq!(Step::Read { room: CAPACITY }, session.forwarded(0, Then::Read));
    assert_eq!(read, session.received(&token, "x".repeat(CAPACITY).as_bytes()));
    assert_eq!(Step::Read { room: CAPACITY }, session.forwarded(0, Then::Read));
    assert_eq!(
        Step::Forward { len: 0, consume: CAPACITY + 1, then: Then::Found },
        session.received(&token, b"x")
    );
    assert_eq!(Step::Finished { found: true }, session.forwarded(CAPACITY + 1, Then::Found));
}

#[test]
fn a_dropped_wait_loses_nothing() {
    let mut session = Session::new();
    let _ = session.expect("STOP");
    let _ = session.forwarded(0, Then::Read);
    let _ = session.received("STOP", b"abcST");
    assert_eq!(Some(b"ab".to_vec()), session.output(2));
    assert_eq!(Step::Read { room: CAPACITY - 3 }, session.forwarded(2, Then::Read));
    // The read fails here; the next wait finds the token that was already begun.
    assert_eq!(b"cST", session.buffered());
    let mut chunks: Vec<&[u8]> = vec![b"OP"];
    let mut output = Vec::<u8>::new();
    assert!(wait(&mut session, "STOP", &mut chunks, &mut output));
    assert_eq!(b"c".to_vec(), output);
}

#[test]
fn room_in_a_buffer() {
    let mut buffer = Buffer::new();
    assert_eq!(CAPACITY, buffer.room());
    let _ = buffer.read(b"abc");
    assert_eq!(CAPACITY - 3, buffer.room());
    let _ = buffer.read(&[0; CAPACITY - 3]);
    assert_eq!(CAPACITY, buffer.len());
    assert_eq!(CAPACITY, buffer.room());
    let _ = buffer.read(b"d");
    assert_eq!(CAPACITY + 1, buffer.len());
    assert_eq!(CAPACITY, buffer.room());
    buffer.consume(CAPACITY);
    assert_eq!(b"d", &buffer[..]);
}

#[test]
fn a_buffer_keeps_the_order_of_its_bytes() {
    let mut buffer = Buffer::new();
    assert_eq!(0, buffer.len());
    assert_eq!(3, buffer.read(b"abc"));
    assert_eq!(2, buffer.read(b"de"));
    assert_eq!(b"abcde", &buffer[..]);
    buffer.consume(2);
    assert_eq!(b"cde", &buffer[..]);
    assert_eq!(0, buffer.read(b""));
    buffer.consume(3);
    assert!(buffer.is_empty());
}
