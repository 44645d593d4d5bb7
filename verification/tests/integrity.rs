use record_store::integrity::{
    verify_physical_length, Checksum, Delivery, StorageError, StreamEvent, VerifyingStream,
};
use sha2::{Digest, Sha256};

fn recorded(payload: &[u8]) -> Checksum {
    Checksum::sha256(Sha256::digest(payload).into())
}

/// What a reader receives, in order.
fn read(expected: Checksum, events: Vec<StreamEvent>) -> Vec<Result<Vec<u8>, StorageError>> {
    let mut stream = VerifyingStream::new(expected);
    let mut received = Vec::new();
    for event in events {
        let (next, deliveries) = stream.step(event);
        stream = next;
        for delivery in deliveries {
            received.push(match delivery {
                Delivery::Chunk(bytes) => Ok(bytes),
                Delivery::Failure(error) => Err(error),
            });
        }
    }
    received
}

fn chunk(bytes: &[u8]) -> StreamEvent {
    StreamEvent::Chunk(bytes.to_vec())
}

#[test]
fn a_payload_of_the_committed_size_is_released() {
    assert_eq!(verify_physical_length(42, 42), Ok(()));
    assert_eq!(verify_physical_length(0, 0), Ok(()));
}

#[test]
fn a_truncated_or_extended_payload_is_refused() {
    assert_eq!(verify_physical_length(41, 42), Err(StorageError::IntegrityMismatch));
    assert_eq!(verify_physical_length(43, 42), Err(StorageError::IntegrityMismatch));
}

/// The digest of "abc", as the standard gives it.
#[test]
fn the_recorded_digest_is_sha_256() {
    let abc = Checksum::sha256([
        0xba, 0x78, 0x16, 0xbf, 0x8f, 0x01, 0xcf, 0xea, 0x41, 0x41, 0x40, 0xde, 0x5d, 0xae, 0x22,
        0x23, 0xb0, 0x03, 0x61, 0xa3, 0x96, 0x17, 0x7a, 0x9c, 0xb4, 0x10, 0xff, 0x61, 0xf2, 0x00,
        0x15, 0xad,
    ]);
    assert_eq!(read(abc, vec![chunk(b"abc"), StreamEvent::End]), vec![Ok(b"abc".to_vec())]);
}

#[test]
fn an_intact_payload_arrives_whole_and_in_order() {
    let received = read(
        recorded(b"payload"),
        vec![chunk(b"pay"), chunk(b""), chunk(b"lo"), chunk(b"ad"), StreamEvent::End],
    );
    assert_eq!(received, vec![Ok(b"pay".to_vec()), Ok(b"lo".to_vec()), Ok(b"ad".to_vec())]);
}

#[test]
fn a_corrupt_payload_fails_before_its_final_chunk() {
    let received = read(
        recorded(b"payload"),
        vec![chunk(b"pay"), chunk(b"lo"), chunk(b"xx"), StreamEvent::End],
    );
    assert_eq!(
        received,
        vec![Ok(b"pay".to_vec()), Ok(b"lo".to_vec()), Err(StorageError::IntegrityMismatch)]
    );
}

#[test]
fn a_corrupt_payload_of_one_chunk_delivers_nothing() {
    assert_eq!(
        read(recorded(b"payload"), vec![chunk(b"corrupt"), StreamEvent::End]),
        vec![Err(StorageError::IntegrityMismatch)]
    );
}

#[test]
fn an_empty_payload_is_checked_too() {
    assert_eq!(read(recorded(b""), vec![StreamEvent::End]), Vec::new());
    assert_eq!(
        read(recorded(b"lost"), vec![StreamEvent::End]),
        vec![Err(StorageError::IntegrityMismatch)]
    );
}

#[test]
fn a_failure_of_the_medium_is_passed_on_behind_what_was_read() {
    let fault = StorageError::Io("disk".to_string());
    let received = read(
        recorded(b"payload"),
        vec![chunk(b"pay"), StreamEvent::Failure(fault.clone())],
    );
    assert_eq!(received, vec![Ok(b"pay".to_vec()), Err(fault)]);
}

#[test]
fn a_failure_keeps_its_place_among_the_chunks() {
    let fault = StorageError::Io("disk".to_string());
    let events = || {
        vec![
            chunk(b"pay"),
            StreamEvent::Failure(fault.clone()),
            chunk(b"load"),
            StreamEvent::End,
        ]
    };
    assert_eq!(
        read(recorded(b"payload"), events()),
        vec![Ok(b"pay".to_vec()), Err(fault.clone()), Ok(b"load".to_vec())]
    );
    assert_eq!(
        read(recorded(b"other"), events()),
        vec![Ok(b"pay".to_vec()), Err(fault.clone()), Err(StorageError::IntegrityMismatch)]
    );
}

#[test]
fn nothing_follows_the_end() {
    let received = read(
        recorded(b"pay"),
        vec![chunk(b"pay"), StreamEvent::End, chunk(b"load"), StreamEvent::End],
    );
    assert_eq!(received, vec![Ok(b"pay".to_vec())]);
}

#[test]
fn the_bytes_seen_are_counted() {
    let stream = VerifyingStream::new(recorded(b""));
    assert_eq!(stream.hashed_len(), 0);
    let (stream, _) = stream.step(chunk(b"pay"));
    let (stream, _) = stream.step(chunk(b"load"));
    assert_eq!(stream.hashed_len(), 7);
}
