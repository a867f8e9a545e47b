//! Scenario tests of the `next_token` polling machine: the driver's
//! filesystem observations are played in by hand and the decisions are
//! checked against the slot-store protocol.

use oliana_server::server::OlianaServer;
use oliana_server::stream::{
    into_token, NextTokenCall, PollInput, PollStep, StreamEnd, DRAIN_POLL_BUDGET,
};

fn read(bytes: &[u8], done: bool) -> PollInput {
    PollInput::Polled { bytes: Some(bytes.to_vec()), done }
}

fn failed_read(done: bool) -> PollInput {
    PollInput::Polled { bytes: None, done }
}

#[test]
fn single_chunk_then_completion() {
    // The worker writes "Hi", then creates the marker. The first call
    // yields Some("Hi"), the second None.
    let mut server = OlianaServer::new("client", "work");
    server.reset_delivered_offset();
    let settled = server.nonce_scan_step(false);
    assert!(settled);

    let mut call = NextTokenCall::new();
    match server.generate_text_next_token_poll(&mut call, &read(b"Hi", true)) {
        PollStep::Chunk(c) => {
            assert_eq!(c, b"Hi".to_vec());
            assert_eq!(into_token(PollStep::Chunk(c)), Some("Hi".to_string()));
        }
        _ => panic!("expected a chunk"),
    }
    assert_eq!(server.read_generate_text_next_byte_i(), 2);

    let mut call2 = NextTokenCall::new();
    match server.generate_text_next_token_poll(&mut call2, &read(b"Hi", true)) {
        PollStep::End(StreamEnd::Completed) => {}
        _ => panic!("expected normal completion"),
    }
}

#[test]
fn two_chunks_reassemble_hello() {
    // The worker writes "Hel", later appends "lo", then the marker. Two
    // calls observe "Hel" then "lo"; reassembly gives "Hello".
    let mut server = OlianaServer::new("client", "work");
    let mut reply = String::new();

    let mut call = NextTokenCall::new();
    match server.generate_text_next_token_poll(&mut call, &read(b"Hel", false)) {
        PollStep::Chunk(c) => reply.push_str(&into_token(PollStep::Chunk(c)).unwrap()),
        _ => panic!("expected the first chunk"),
    }
    let mut call2 = NextTokenCall::new();
    match server.generate_text_next_token_poll(&mut call2, &read(b"Hello", true)) {
        PollStep::Chunk(c) => reply.push_str(&into_token(PollStep::Chunk(c)).unwrap()),
        _ => panic!("expected the second chunk"),
    }
    assert_eq!(reply, "Hello");

    let mut call3 = NextTokenCall::new();
    match server.generate_text_next_token_poll(&mut call3, &read(b"Hello", true)) {
        PollStep::End(StreamEnd::Completed) => {}
        _ => panic!("expected normal completion"),
    }
}

#[test]
fn empty_stream_exhausts_drain_budget() {
    // The stream was created empty and no worker ever appends: the drain
    // budget is spent one retry at a time, then the call ends the stream.
    let mut server = OlianaServer::new("client", "work");
    let mut call = NextTokenCall::new();
    for i in 0..DRAIN_POLL_BUDGET {
        match server.generate_text_next_token_poll(&mut call, &read(b"", false)) {
            PollStep::Retry => {}
            _ => panic!("poll {i} should retry"),
        }
        assert_eq!(call.polls_left, DRAIN_POLL_BUDGET - 1 - i);
    }
    match server.generate_text_next_token_poll(&mut call, &read(b"", false)) {
        PollStep::End(StreamEnd::TimedOut) => {}
        _ => panic!("expected the budget to run out"),
    }
}

#[test]
fn missing_stream_never_ends() {
    // The stream is never created: the wait phase retries forever, without
    // spending any budget. Bounded stand-in for "never returns".
    let mut server = OlianaServer::new("client", "work");
    let mut call = NextTokenCall::new();
    for _ in 0..1000 {
        match server.generate_text_next_token_poll(&mut call, &PollInput::Missing) {
            PollStep::Retry => {}
            _ => panic!("a missing stream must only ever retry"),
        }
        assert!(!call.started);
        assert_eq!(call.polls_left, DRAIN_POLL_BUDGET);
    }
}

#[test]
fn marker_without_growth_completes() {
    // Once the marker exists and the stream has not grown since the last
    // read, the very next poll reports end-of-stream.
    let mut server = OlianaServer::new("client", "work");
    let mut call = NextTokenCall::new();
    match server.generate_text_next_token_poll(&mut call, &read(b"abc", false)) {
        PollStep::Chunk(c) => assert_eq!(c, b"abc".to_vec()),
        _ => panic!("expected a chunk"),
    }
    match server.generate_text_next_token_poll(&mut call, &read(b"abc", true)) {
        PollStep::End(StreamEnd::Completed) => {}
        _ => panic!("expected normal completion"),
    }
}

#[test]
fn shrunken_stream_ends_without_error() {
    // A response stream that shrinks below the delivered offset ends the
    // stream at once, tagged as truncation, with the offset left alone.
    let mut server = OlianaServer::new("client", "work");
    let mut call = NextTokenCall::new();
    match server.generate_text_next_token_poll(&mut call, &read(b"Hello", false)) {
        PollStep::Chunk(_) => {}
        _ => panic!("expected a chunk"),
    }
    assert_eq!(server.read_generate_text_next_byte_i(), 5);
    match server.generate_text_next_token_poll(&mut call, &read(b"He", false)) {
        PollStep::End(StreamEnd::Truncated) => {}
        _ => panic!("expected truncation"),
    }
    assert_eq!(server.read_generate_text_next_byte_i(), 5);
}

#[test]
fn split_character_waits_for_the_rest() {
    // A multi-byte character straddles the read boundary: the undecodable
    // poll yields nothing and keeps the offset, the completed character is
    // delivered whole on the next poll.
    let euro = "\u{20ac}".as_bytes();
    assert_eq!(euro.len(), 3);
    let mut server = OlianaServer::new("client", "work");
    let mut call = NextTokenCall::new();
    match server.generate_text_next_token_poll(&mut call, &read(&euro[..2], false)) {
        PollStep::Retry => {}
        _ => panic!("a split character must not be delivered"),
    }
    assert_eq!(server.read_generate_text_next_byte_i(), 0);
    match server.generate_text_next_token_poll(&mut call, &read(euro, false)) {
        PollStep::Chunk(c) => assert_eq!(into_token(PollStep::Chunk(c)), Some("\u{20ac}".to_string())),
        _ => panic!("expected the completed character"),
    }
    assert_eq!(server.read_generate_text_next_byte_i(), 3);
}

#[test]
fn failed_read_falls_through_to_marker_and_budget() {
    let mut server = OlianaServer::new("client", "work");
    let mut call = NextTokenCall::new();
    match server.generate_text_next_token_poll(&mut call, &failed_read(false)) {
        PollStep::Retry => {}
        _ => panic!("a failed read should retry"),
    }
    assert!(call.started);
    assert_eq!(call.polls_left, DRAIN_POLL_BUDGET - 1);
    match server.generate_text_next_token_poll(&mut call, &failed_read(true)) {
        PollStep::End(StreamEnd::Completed) => {}
        _ => panic!("a failed read with the marker present should end"),
    }
}

#[test]
fn empty_reads_are_never_surfaced_as_chunks() {
    // Reading zero new bytes is not a chunk; the caller is asked to retry.
    let mut server = OlianaServer::new("client", "work");
    let mut call = NextTokenCall::new();
    match server.generate_text_next_token_poll(&mut call, &read(b"ab", false)) {
        PollStep::Chunk(c) => assert_eq!(c, b"ab".to_vec()),
        _ => panic!("expected a chunk"),
    }
    match server.generate_text_next_token_poll(&mut call, &read(b"ab", false)) {
        PollStep::Retry => {}
        _ => panic!("no new bytes must mean retry, not an empty chunk"),
    }
    assert_eq!(server.read_generate_text_next_byte_i(), 2);
}

#[test]
fn long_run_reassembles_with_stalls_and_splits() {
    // A worker that stalls, appends in odd pieces, and splits a multi-byte
    // character across reads: the concatenation of every produced chunk is
    // still exactly the final stream.
    let fin = "na\u{ef}ve caf\u{e9}".as_bytes();
    let cuts = [0usize, 2, 3, 3, 5, 8, 9, 11, 11, fin.len()];
    let mut server = OlianaServer::new("client", "work");
    let mut reassembled: Vec<u8> = Vec::new();
    for len in cuts {
        let mut call = NextTokenCall::new();
        match server.generate_text_next_token_poll(&mut call, &read(&fin[..len], false)) {
            PollStep::Chunk(c) => reassembled.extend_from_slice(&c),
            PollStep::Retry => {}
            PollStep::End(_) => panic!("the stream must not end mid-run"),
        }
    }
    let mut call = NextTokenCall::new();
    match server.generate_text_next_token_poll(&mut call, &read(fin, true)) {
        PollStep::End(StreamEnd::Completed) => {}
        _ => panic!("expected normal completion"),
    }
    assert_eq!(reassembled, fin.to_vec());
}

#[test]
fn into_token_only_yields_for_chunks() {
    assert_eq!(into_token(PollStep::Retry), None);
    assert_eq!(into_token(PollStep::End(StreamEnd::Completed)), None);
    assert_eq!(into_token(PollStep::End(StreamEnd::Truncated)), None);
    assert_eq!(into_token(PollStep::End(StreamEnd::TimedOut)), None);
    assert_eq!(into_token(PollStep::Chunk(b"ok".to_vec())), Some("ok".to_string()));
}
