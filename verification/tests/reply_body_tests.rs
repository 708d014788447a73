use bytes::Bytes;
use http::header::HeaderValue;
use http::HeaderMap;
use port_forwarder::reply_body::{Capped, Data, DataPoll, ReplayBody, TrailersPoll};
use port_forwarder::size_hint::SizeHint;

/// A stand-in for the origin of a body: the chunks that it has yet to yield.
struct Origin {
    chunks: Vec<&'static [u8]>,
}

fn origin(chunks: &[&'static [u8]]) -> Origin {
    Origin { chunks: chunks.to_vec() }
}

fn wrap(chunks: &[&'static [u8]], max_bytes: usize) -> ReplayBody<Origin> {
    match ReplayBody::try_new(origin(chunks), max_bytes, SizeHint::new(), false) {
        Ok(body) => body,
        Err(_) => panic!("the origin announces no more than the budget"),
    }
}

fn bytes_of(data: &mut Data) -> Vec<u8> {
    let len = data.remaining();
    data.copy_to_bytes(len).to_vec()
}

/// Reads a clone to its end as a caller does: what `poll_data` decides is
/// done, and the origin is read where it says so. `None` for a failure.
fn read_to_end(body: &mut ReplayBody<Origin>) -> Option<Vec<u8>> {
    let mut out = Vec::new();
    loop {
        match body.poll_data() {
            DataPoll::Replay(mut data) => out.extend(bytes_of(&mut data)),
            DataPoll::Capped(_) => return None,
            DataPoll::End => return Some(out),
            DataPoll::Unowned => panic!("missing body state"),
            DataPoll::Origin => {
                let mut rest = body.take_rest().unwrap();
                let next = if rest.chunks.is_empty() { None } else { Some(rest.chunks.remove(0)) };
                body.put_rest(rest);
                match next {
                    Some(chunk) => {
                        let mut data = body.on_data(Bytes::from_static(chunk));
                        out.extend(bytes_of(&mut data));
                    },
                    None => {
                        body.on_end();
                        return Some(out);
                    },
                }
            },
        }
    }
}

#[test]
fn try_new_wraps_an_origin_within_the_budget() {
    let body = ReplayBody::try_new(origin(&[b"ab"]), 8, SizeHint::with_exact(8), false);
    assert!(body.is_ok());
    let body = body.ok().unwrap();
    assert!(body.owns_state());
    assert_eq!(body.is_capped(), Some(false));
}

#[test]
fn try_new_hands_back_an_origin_that_announces_too_much() {
    let made = ReplayBody::try_new(origin(&[b"abc"]), 8, SizeHint::with_exact(9), false);
    match made {
        Ok(_) => panic!("the origin announces more than the budget"),
        Err(handed_back) => assert_eq!(handed_back.chunks, vec![&b"abc"[..]]),
    }
}

#[test]
fn first_reading_turns_to_the_origin() {
    let mut body = wrap(&[b"hello"], 64);
    assert!(matches!(body.poll_data(), DataPoll::Origin));
}

#[test]
fn chunk_of_the_origin_is_handed_on_as_initial_data() {
    let mut body = wrap(&[], 64);
    let mut data = body.on_data(Bytes::from_static(b"hello"));
    assert!(matches!(data, Data::Initial(_)));
    assert_eq!(bytes_of(&mut data), b"hello");
}

#[test]
fn first_reading_yields_the_origin() {
    let mut body = wrap(&[b"hello", b" ", b"world"], 64);
    assert_eq!(read_to_end(&mut body), Some(b"hello world".to_vec()));
}

#[test]
fn ended_origin_is_not_read_again() {
    let mut body = wrap(&[b"hello"], 64);
    assert_eq!(read_to_end(&mut body), Some(b"hello".to_vec()));
    assert!(matches!(body.poll_data(), DataPoll::End));
    assert!(matches!(body.poll_data(), DataPoll::End));
}

#[test]
fn clone_replays_what_was_read() {
    let mut body = wrap(&[b"hello", b" ", b"world"], 64);
    assert_eq!(read_to_end(&mut body), Some(b"hello world".to_vec()));
    let mut again = body.clone();
    body.release();
    assert_eq!(read_to_end(&mut again), Some(b"hello world".to_vec()));
}

#[test]
fn replay_comes_as_one_data_with_the_chunks_kept() {
    let mut body = wrap(&[b"ab", b"cd"], 64);
    read_to_end(&mut body);
    let mut again = body.clone();
    body.release();
    match again.poll_data() {
        DataPoll::Replay(data) => {
            assert!(matches!(data, Data::Replay(_)));
            assert_eq!(data.remaining(), 4);
            assert_eq!(data.chunks_vectored(4), vec![&b"ab"[..], &b"cd"[..]]);
        },
        _ => panic!("the clone replays first"),
    }
    assert!(matches!(again.poll_data(), DataPoll::End));
}

#[test]
fn every_clone_replays_the_same_bytes() {
    let mut body = wrap(&[b"abc", b"def"], 6);
    assert_eq!(read_to_end(&mut body), Some(b"abcdef".to_vec()));
    let mut second = body.clone();
    body.release();
    assert_eq!(read_to_end(&mut second), Some(b"abcdef".to_vec()));
    let mut third = second.clone();
    second.release();
    assert_eq!(read_to_end(&mut third), Some(b"abcdef".to_vec()));
}

#[test]
fn clone_goes_on_with_the_origin_after_the_replay() {
    let mut body = wrap(&[b"abc", b"def"], 64);
    assert!(matches!(body.poll_data(), DataPoll::Origin));
    let mut rest = body.take_rest().unwrap();
    let first = rest.chunks.remove(0);
    body.put_rest(rest);
    body.on_data(Bytes::from_static(first));
    let mut again = body.clone();
    body.release();
    assert_eq!(read_to_end(&mut again), Some(b"abcdef".to_vec()));
    let mut third = again.clone();
    again.release();
    assert_eq!(read_to_end(&mut third), Some(b"abcdef".to_vec()));
}

#[test]
fn empty_body_replays_as_empty() {
    let mut body = wrap(&[], 64);
    assert_eq!(read_to_end(&mut body), Some(Vec::new()));
    let mut again = body.clone();
    body.release();
    assert_eq!(read_to_end(&mut again), Some(Vec::new()));
}

#[test]
fn body_of_exactly_the_budget_is_kept() {
    let mut body = wrap(&[b"abcd", b"efgh"], 8);
    assert_eq!(read_to_end(&mut body), Some(b"abcdefgh".to_vec()));
    assert_eq!(body.is_capped(), Some(false));
    let mut again = body.clone();
    body.release();
    assert_eq!(read_to_end(&mut again), Some(b"abcdefgh".to_vec()));
}

#[test]
fn body_over_the_budget_is_capped() {
    let mut body = wrap(&[b"abcd", b"efghi"], 8);
    assert_eq!(read_to_end(&mut body), Some(b"abcdefghi".to_vec()));
    assert_eq!(body.is_capped(), Some(true));
}

#[test]
fn reading_goes_on_after_the_body_was_capped() {
    let mut body = wrap(&[b"abcd", b"efghi", b"jk"], 8);
    assert_eq!(read_to_end(&mut body), Some(b"abcdefghijk".to_vec()));
}

#[test]
fn clone_of_a_capped_body_fails() {
    let mut body = wrap(&[b"abcd", b"efghi"], 8);
    read_to_end(&mut body);
    let mut again = body.clone();
    body.release();
    assert!(matches!(again.poll_data(), DataPoll::Capped(_)));
    assert!(matches!(again.poll_data(), DataPoll::Capped(_)));
    assert_eq!(read_to_end(&mut again), None);
    assert_eq!(again.is_capped(), Some(true));
}

#[test]
fn budget_of_zero_keeps_an_empty_body_only() {
    let mut body = wrap(&[b""], 0);
    assert_eq!(read_to_end(&mut body), Some(Vec::new()));
    assert_eq!(body.is_capped(), Some(false));
    let mut other = wrap(&[b"a"], 0);
    assert_eq!(read_to_end(&mut other), Some(b"a".to_vec()));
    assert_eq!(other.is_capped(), Some(true));
}

#[test]
fn largest_budget_never_caps() {
    let mut body = wrap(&[b"abc", b"def"], usize::MAX);
    assert_eq!(read_to_end(&mut body), Some(b"abcdef".to_vec()));
    assert_eq!(body.is_capped(), Some(false));
}

#[test]
fn capped_failure_has_its_text() {
    assert_eq!(
        Capped.to_string(),
        "replay body discarded after reaching maximum buffered bytes limit"
    );
}

#[test]
fn clone_cannot_be_read_while_another_holds_the_state() {
    let mut body = wrap(&[b"abc"], 64);
    let mut again = body.clone();
    assert!(!again.owns_state());
    assert!(matches!(again.poll_data(), DataPoll::Unowned));
    assert!(matches!(again.poll_trailers(true), TrailersPoll::Unowned));
    assert_eq!(again.is_capped(), None);
    assert!(matches!(body.poll_data(), DataPoll::Origin));
}

#[test]
fn release_hands_the_state_to_the_next_clone() {
    let mut body = wrap(&[b"abc"], 64);
    let mut again = body.clone();
    body.release();
    assert!(!body.owns_state());
    assert_eq!(again.is_capped(), Some(false));
    assert!(matches!(again.poll_data(), DataPoll::Origin));
    assert!(again.owns_state());
    assert!(matches!(body.poll_data(), DataPoll::Unowned));
}

#[test]
fn release_without_state_changes_nothing() {
    let mut body = wrap(&[b"abc"], 64);
    let mut again = body.clone();
    again.release();
    assert!(body.owns_state());
    assert!(matches!(body.poll_data(), DataPoll::Origin));
}

#[test]
fn origin_can_be_taken_out_and_put_back() {
    let mut body = wrap(&[b"abc"], 64);
    assert_eq!(body.rest().map(|rest| rest.chunks.len()), Some(1));
    let rest = body.take_rest().unwrap();
    assert!(body.rest().is_none());
    assert!(body.take_rest().is_none());
    assert!(matches!(body.poll_data(), DataPoll::End));
    body.put_rest(rest);
    assert!(matches!(body.poll_data(), DataPoll::Origin));
}

fn trailers(value: &'static str) -> HeaderMap {
    let mut map = HeaderMap::new();
    map.insert("x-checksum", HeaderValue::from_static(value));
    map
}

#[test]
fn first_reading_asks_the_origin_for_trailers() {
    let mut body = wrap(&[b"abc"], 64);
    assert!(matches!(body.poll_trailers(false), TrailersPoll::Origin));
}

#[test]
fn ended_origin_has_no_trailers() {
    let mut body = wrap(&[b"abc"], 64);
    assert!(matches!(body.poll_trailers(true), TrailersPoll::Absent));
}

#[test]
fn trailers_are_handed_on() {
    let mut body = wrap(&[b"abc"], 64);
    assert_eq!(body.on_trailers(Some(trailers("1"))), Some(trailers("1")));
    assert_eq!(body.on_trailers(None), None);
}

#[test]
fn clone_replays_the_trailers() {
    let mut body = wrap(&[b"abc"], 64);
    read_to_end(&mut body);
    body.on_trailers(Some(trailers("1")));
    let mut again = body.clone();
    body.release();
    read_to_end(&mut again);
    match again.poll_trailers(true) {
        TrailersPoll::Replay(kept) => assert_eq!(kept, trailers("1")),
        _ => panic!("the clone replays the trailers"),
    }
    assert!(matches!(again.poll_trailers(true), TrailersPoll::Absent));
}

#[test]
fn first_trailers_are_the_ones_kept() {
    let mut body = wrap(&[b"abc"], 64);
    body.on_trailers(Some(trailers("1")));
    body.on_trailers(Some(trailers("2")));
    let mut again = body.clone();
    body.release();
    match again.poll_trailers(true) {
        TrailersPoll::Replay(kept) => assert_eq!(kept, trailers("1")),
        _ => panic!("the clone replays the trailers"),
    }
}

#[test]
fn clone_without_kept_trailers_asks_the_origin() {
    let mut body = wrap(&[b"abc"], 64);
    let mut again = body.clone();
    body.release();
    assert!(matches!(again.poll_trailers(false), TrailersPoll::Origin));
}

#[test]
fn body_that_was_empty_is_always_at_its_end() {
    let made = ReplayBody::try_new(origin(&[]), 8, SizeHint::with_exact(0), true);
    let body = made.ok().unwrap();
    assert!(body.is_end_stream(false));
    assert!(body.clone().is_end_stream(false));
}

#[test]
fn first_reading_is_at_its_end_when_the_origin_is() {
    let body = wrap(&[b"abc"], 64);
    assert!(!body.is_end_stream(false));
    assert!(body.is_end_stream(true));
}

#[test]
fn clone_is_not_at_its_end_before_its_replay() {
    let mut body = wrap(&[b"abc"], 64);
    read_to_end(&mut body);
    let mut again = body.clone();
    body.release();
    assert!(!again.is_end_stream(true));
    read_to_end(&mut again);
    assert!(!again.is_end_stream(true));
    again.poll_trailers(true);
    assert!(again.is_end_stream(true));
    assert!(!body.is_end_stream(true));
}

#[test]
fn clone_without_state_reports_the_first_size_hint() {
    let made = ReplayBody::try_new(origin(&[b"abc"]), 8, SizeHint::with_exact(3), false);
    let body = made.ok().unwrap();
    let again = body.clone();
    let hint = again.size_hint(SizeHint::new());
    assert_eq!(hint.lower(), 3);
    assert_eq!(hint.upper(), Some(3));
}

#[test]
fn size_hint_adds_what_was_kept_to_the_hint_of_the_origin() {
    let mut body = wrap(&[], 64);
    body.on_data(Bytes::from_static(b"hello"));
    let mut rest_hint = SizeHint::new();
    rest_hint.set_upper(10);
    rest_hint.set_lower(2);
    let hint = body.size_hint(rest_hint);
    assert_eq!(hint.lower(), 7);
    assert_eq!(hint.upper(), Some(15));
    let open = body.size_hint(SizeHint::new());
    assert_eq!(open.lower(), 5);
    assert_eq!(open.upper(), None);
}

#[test]
fn size_hint_without_origin_is_exact() {
    let mut body = wrap(&[], 64);
    body.on_data(Bytes::from_static(b"hello"));
    body.take_rest();
    let hint = body.size_hint(SizeHint::with_exact(100));
    assert_eq!(hint.exact(), Some(5));
}

#[test]
fn state_is_fetched_from_the_slot_only_when_it_lies_there() {
    let mut body = wrap(&[b"abc"], 64);
    let mut again = body.clone();
    assert!(body.acquire_state());
    assert!(!again.acquire_state());
    body.release();
    assert!(again.acquire_state());
    assert!(!body.acquire_state());
}

#[test]
fn kept_bytes_are_counted() {
    let mut body = wrap(&[], 64);
    assert_eq!(body.buffered(), Some(0));
    body.on_data(Bytes::from_static(b"hello"));
    body.on_data(Bytes::from_static(b"!"));
    assert_eq!(body.buffered(), Some(6));
    let again = body.clone();
    assert_eq!(again.buffered(), None);
}

#[test]
fn capped_body_keeps_no_bytes() {
    let mut body = wrap(&[], 4);
    body.on_data(Bytes::from_static(b"abc"));
    assert_eq!(body.buffered(), Some(3));
    body.on_data(Bytes::from_static(b"de"));
    assert_eq!(body.buffered(), Some(0));
    assert_eq!(body.is_capped(), Some(true));
    body.on_data(Bytes::from_static(b"f"));
    assert_eq!(body.buffered(), Some(0));
}
