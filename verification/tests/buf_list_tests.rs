use bytes::Bytes;
use port_forwarder::buf_list::BufList;

fn list_of(chunks: &[&'static [u8]]) -> BufList {
    let mut list = BufList::new();
    for chunk in chunks {
        list.push_chunk(Bytes::from_static(chunk));
    }
    list
}

fn drain(list: &mut BufList) -> Vec<u8> {
    let mut out = Vec::new();
    while list.remaining() > 0 {
        let chunk = list.chunk().to_vec();
        if chunk.is_empty() {
            let one = list.copy_to_bytes(1);
            out.extend_from_slice(&one);
        } else {
            list.advance(chunk.len());
            out.extend_from_slice(&chunk);
        }
    }
    out
}

#[test]
fn new_list_is_empty() {
    let list = BufList::new();
    assert_eq!(list.remaining(), 0);
    assert!(!list.has_remaining());
    assert_eq!(list.chunk(), b"");
    assert!(list.chunks_vectored(4).is_empty());
}

#[test]
fn default_list_is_empty() {
    let list = BufList::default();
    assert_eq!(list.remaining(), 0);
    assert_eq!(list.chunk(), b"");
}

#[test]
fn push_chunk_hands_back_the_same_bytes() {
    let mut list = BufList::new();
    let chunk = list.push_chunk(Bytes::from_static(b"hello"));
    assert_eq!(&chunk[..], b"hello");
    assert_eq!(list.remaining(), 5);
    assert_eq!(list.chunk(), b"hello");
}

#[test]
fn remaining_sums_all_chunks() {
    let list = list_of(&[b"hello", b" ", b"world"]);
    assert_eq!(list.remaining(), 11);
    assert!(list.has_remaining());
}

#[test]
fn chunk_is_the_first_chunk() {
    let list = list_of(&[b"ab", b"cde"]);
    assert_eq!(list.chunk(), b"ab");
}

#[test]
fn advance_within_the_first_chunk() {
    let mut list = list_of(&[b"hello", b"world"]);
    list.advance(2);
    assert_eq!(list.chunk(), b"llo");
    assert_eq!(list.remaining(), 8);
}

#[test]
fn advance_to_the_end_of_a_chunk_drops_it() {
    let mut list = list_of(&[b"hello", b"world"]);
    list.advance(5);
    assert_eq!(list.chunk(), b"world");
    assert_eq!(list.remaining(), 5);
}

#[test]
fn advance_across_chunks() {
    let mut list = list_of(&[b"ab", b"cd", b"efg"]);
    list.advance(5);
    assert_eq!(list.chunk(), b"fg");
    assert_eq!(list.remaining(), 2);
}

#[test]
fn advance_by_nothing_changes_nothing() {
    let mut list = list_of(&[b"", b"ab"]);
    list.advance(0);
    assert_eq!(list.chunk(), b"");
    assert_eq!(list.remaining(), 2);
}

#[test]
fn advance_steps_over_empty_chunks() {
    let mut list = list_of(&[b"", b"ab", b"", b"cd"]);
    list.advance(3);
    assert_eq!(list.chunk(), b"d");
    assert_eq!(list.remaining(), 1);
}

#[test]
fn advance_by_everything_empties_the_list() {
    let mut list = list_of(&[b"ab", b"cd"]);
    list.advance(4);
    assert_eq!(list.remaining(), 0);
    assert_eq!(list.chunk(), b"");
}

#[test]
fn copy_to_bytes_inside_the_first_chunk() {
    let mut list = list_of(&[b"hello", b"world"]);
    let head = list.copy_to_bytes(3);
    assert_eq!(&head[..], b"hel");
    assert_eq!(list.chunk(), b"lo");
    assert_eq!(list.remaining(), 7);
}

#[test]
fn copy_to_bytes_of_the_whole_first_chunk_drops_it() {
    let mut list = list_of(&[b"hello", b"world"]);
    let head = list.copy_to_bytes(5);
    assert_eq!(&head[..], b"hello");
    assert_eq!(list.chunk(), b"world");
    assert_eq!(list.remaining(), 5);
}

#[test]
fn copy_to_bytes_across_chunks() {
    let mut list = list_of(&[b"ab", b"cd", b"efg"]);
    let head = list.copy_to_bytes(5);
    assert_eq!(&head[..], b"abcde");
    assert_eq!(list.chunk(), b"fg");
    assert_eq!(list.remaining(), 2);
}

#[test]
fn copy_to_bytes_of_everything() {
    let mut list = list_of(&[b"ab", b"cd", b"efg"]);
    let all = list.copy_to_bytes(7);
    assert_eq!(&all[..], b"abcdefg");
    assert_eq!(list.remaining(), 0);
    assert_eq!(list.chunk(), b"");
}

#[test]
fn copy_to_bytes_steps_over_an_empty_first_chunk() {
    let mut list = list_of(&[b"", b"ab", b"cd"]);
    let head = list.copy_to_bytes(3);
    assert_eq!(&head[..], b"abc");
    assert_eq!(list.chunk(), b"d");
}

#[test]
fn copy_to_bytes_of_nothing() {
    let mut list = list_of(&[b"ab"]);
    let head = list.copy_to_bytes(0);
    assert!(head.is_empty());
    assert_eq!(list.chunk(), b"ab");
    let mut empty = BufList::new();
    assert!(empty.copy_to_bytes(0).is_empty());
}

#[test]
fn chunks_vectored_fills_no_slot_when_there_is_none() {
    let list = list_of(&[b"ab", b"cd"]);
    assert!(list.chunks_vectored(0).is_empty());
}

#[test]
fn chunks_vectored_stops_when_the_slots_are_full() {
    let list = list_of(&[b"ab", b"cd", b"ef"]);
    let filled = list.chunks_vectored(2);
    assert_eq!(filled, vec![&b"ab"[..], &b"cd"[..]]);
}

#[test]
fn chunks_vectored_takes_every_chunk_when_slots_are_left() {
    let list = list_of(&[b"ab", b"cd"]);
    let filled = list.chunks_vectored(8);
    assert_eq!(filled, vec![&b"ab"[..], &b"cd"[..]]);
}

#[test]
fn chunks_vectored_skips_empty_chunks() {
    let list = list_of(&[b"", b"ab", b"", b"cd", b"ef"]);
    let filled = list.chunks_vectored(2);
    assert_eq!(filled, vec![&b"ab"[..], &b"cd"[..]]);
}

#[test]
fn clone_reads_the_same_bytes_and_leaves_the_list_alone() {
    let list = list_of(&[b"ab", b"cd"]);
    let mut copy = list.clone();
    assert_eq!(copy.remaining(), 4);
    copy.advance(3);
    assert_eq!(copy.chunk(), b"d");
    assert_eq!(list.remaining(), 4);
    assert_eq!(list.chunk(), b"ab");
}

#[test]
fn reading_a_list_to_its_end_yields_its_bytes_in_order() {
    let mut list = list_of(&[b"GET ", b"", b"/index", b".html"]);
    assert_eq!(drain(&mut list), b"GET /index.html");
}
