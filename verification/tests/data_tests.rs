use bytes::Bytes;
use port_forwarder::buf_list::BufList;
use port_forwarder::reply_body::Data;

fn replay_of(chunks: &[&'static [u8]]) -> Data {
    let mut list = BufList::new();
    for chunk in chunks {
        list.push_chunk(Bytes::from_static(chunk));
    }
    Data::Replay(list)
}

#[test]
fn initial_data_counts_its_bytes() {
    let data = Data::Initial(Bytes::from_static(b"hello"));
    assert_eq!(data.remaining(), 5);
    assert_eq!(data.chunk(), b"hello");
}

#[test]
fn replay_data_counts_the_bytes_of_all_chunks() {
    let data = replay_of(&[b"ab", b"cde"]);
    assert_eq!(data.remaining(), 5);
    assert_eq!(data.chunk(), b"ab");
}

#[test]
fn initial_data_advances() {
    let mut data = Data::Initial(Bytes::from_static(b"hello"));
    data.advance(2);
    assert_eq!(data.chunk(), b"llo");
    assert_eq!(data.remaining(), 3);
}

#[test]
fn replay_data_advances_across_chunks() {
    let mut data = replay_of(&[b"ab", b"cde"]);
    data.advance(3);
    assert_eq!(data.chunk(), b"de");
    assert_eq!(data.remaining(), 2);
}

#[test]
fn initial_data_copies_to_bytes() {
    let mut data = Data::Initial(Bytes::from_static(b"hello"));
    let head = data.copy_to_bytes(4);
    assert_eq!(&head[..], b"hell");
    assert_eq!(data.chunk(), b"o");
}

#[test]
fn replay_data_copies_to_bytes_across_chunks() {
    let mut data = replay_of(&[b"ab", b"cde"]);
    let head = data.copy_to_bytes(4);
    assert_eq!(&head[..], b"abcd");
    assert_eq!(data.chunk(), b"e");
}

#[test]
fn initial_data_fills_one_slot() {
    let data = Data::Initial(Bytes::from_static(b"hello"));
    assert_eq!(data.chunks_vectored(3), vec![&b"hello"[..]]);
    assert!(data.chunks_vectored(0).is_empty());
}

#[test]
fn empty_initial_data_fills_no_slot() {
    let data = Data::Initial(Bytes::new());
    assert!(data.chunks_vectored(3).is_empty());
}

#[test]
fn replay_data_fills_one_slot_for_each_chunk() {
    let data = replay_of(&[b"ab", b"", b"cde"]);
    assert_eq!(data.chunks_vectored(3), vec![&b"ab"[..], &b"cde"[..]]);
    assert_eq!(data.chunks_vectored(1), vec![&b"ab"[..]]);
}
