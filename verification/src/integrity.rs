//! Read-path integrity checks shared by object, multipart, and replica reads.
//!
//! [`verify_physical_length`] runs before any byte is released: it catches a
//! truncated or extended file while the caller can still be handed a clean
//! error instead of a short body.
//!
//! [`VerifyingStream`] runs while bytes are streaming. It recomputes the
//! payload digest and fails the stream before its final chunk is delivered when
//! the digest disagrees with the one recorded at commit. That is detection, not
//! prevention: earlier bytes have already left by the time the mismatch is
//! known, so the guarantee is that a corrupt read *fails*.

use vstd::prelude::*;

use crate::digest::{
    absorbed, hasher_finalize, hasher_new, hasher_update, sha256, Digest32,
    MAX_MESSAGE,
};
use crate::types::bytes_equal;

verus! {

/// Why a payload could not be read.
#[derive(Debug, Clone, PartialEq, Eq)]
pub enum StorageError {
    /// The payload is not the one that was committed.
    IntegrityMismatch,
    /// The medium failed.
    Io(String),
}

/// The digest recorded for a payload when it was committed.
#[derive(Debug, Clone, Copy, PartialEq, Eq)]
pub struct Checksum {
    digest: Digest32,
}

impl Checksum {
    /// The SHA-256 digest this checksum holds.
    pub closed spec fn view(&self) -> Digest32 {
        self.digest
    }

    /// Builds a checksum from a SHA-256 digest.
    pub fn sha256(digest: Digest32) -> (checksum: Checksum)
        ensures
            checksum@ == digest,
    {
        Checksum { digest }
    }
}

/// Refuses a payload whose physical size cannot hold the committed logical size.
///
/// `physical` is what the file occupies on disk and `expected` is what the
/// payload format says the payload must occupy. They are computed by the caller
/// because only it knows the format's framing overhead.
pub fn verify_physical_length(physical: u64, expected: u64) -> (verdict: Result<(), StorageError>)
    ensures
        verdict == (if physical == expected {
            Ok::<(), StorageError>(())
        } else {
            Err::<(), StorageError>(StorageError::IntegrityMismatch)
        }),
{
    if physical == expected {
        Ok(())
    } else {
        Err(StorageError::IntegrityMismatch)
    }
}

/// What the stored payload's stream yields next.
pub enum StreamEvent {
    /// A piece of the payload.
    Chunk(Vec<u8>),
    /// The payload could not be read further.
    Failure(StorageError),
    /// The payload has ended.
    End,
}

/// An item handed on to the reader.
pub enum Delivery {
    /// A piece of the payload, never empty.
    Chunk(Vec<u8>),
    /// The read failed.
    Failure(StorageError),
}

/// The contents of a stream event.
pub enum EventView {
    /// A piece of the payload.
    Chunk(Seq<u8>),
    /// The payload could not be read further.
    Failure(StorageError),
    /// The payload has ended.
    End,
}

/// The contents of a delivery.
pub enum DeliveryView {
    /// A piece of the payload.
    Chunk(Seq<u8>),
    /// The read failed.
    Failure(StorageError),
}

impl View for StreamEvent {
    type V = EventView;

    open spec fn view(&self) -> EventView {
        match *self {
            StreamEvent::Chunk(bytes) => EventView::Chunk(bytes@),
            StreamEvent::Failure(error) => EventView::Failure(error),
            StreamEvent::End => EventView::End,
        }
    }
}

impl View for Delivery {
    type V = DeliveryView;

    open spec fn view(&self) -> DeliveryView {
        match *self {
            Delivery::Chunk(bytes) => DeliveryView::Chunk(bytes@),
            Delivery::Failure(error) => DeliveryView::Failure(error),
        }
    }
}

/// The contents of a list of deliveries.
pub open spec fn delivered(items: Seq<Delivery>) -> Seq<DeliveryView> {
    Seq::new(items.len(), |i: int| items[i]@)
}

/// Where a verified read stands.
pub struct StreamState {
    /// The payload bytes seen so far.
    pub hashed: Seq<u8>,
    /// The last chunk seen, held back until something follows it.
    pub held: Option<Seq<u8>>,
    /// The digest recorded at commit.
    pub expected: Digest32,
    /// Whether the end has not been reached yet.
    pub open: bool,
}

impl StreamState {
    /// The held chunk, as what is delivered when it is let go.
    pub open spec fn released(self) -> Seq<DeliveryView> {
        match self.held {
            Some(bytes) => seq![DeliveryView::Chunk(bytes)],
            None => Seq::empty(),
        }
    }

    /// The state after one event.
    pub open spec fn after(self, event: EventView) -> StreamState {
        if !self.open {
            self
        } else {
            match event {
                EventView::Chunk(bytes) => StreamState {
                    hashed: self.hashed + bytes,
                    held: if bytes.len() == 0 {
                        self.held
                    } else {
                        Some(bytes)
                    },
                    ..self
                },
                EventView::Failure(_) => StreamState { held: None, ..self },
                EventView::End => StreamState { held: None, open: false, ..self },
            }
        }
    }

    /// What one event has delivered. A chunk lets go of the one before it, and
    /// the end lets go of the last one only if the digest agrees.
    pub open spec fn deliveries(self, event: EventView) -> Seq<DeliveryView> {
        if !self.open {
            Seq::empty()
        } else {
            match event {
                EventView::Chunk(bytes) => if bytes.len() == 0 {
                    Seq::empty()
                } else {
                    self.released()
                },
                EventView::Failure(error) => self.released().push(DeliveryView::Failure(error)),
                EventView::End => if sha256(self.hashed) == self.expected {
                    self.released()
                } else {
                    seq![DeliveryView::Failure(StorageError::IntegrityMismatch)]
                },
            }
        }
    }
}

/// A read that fails on a digest mismatch instead of letting the reader
/// silently receive corrupt bytes.
pub struct VerifyingStream {
    hasher: Option<sha2::Sha256>,
    hashed: Ghost<Seq<u8>>,
    length: u64,
    held: Option<Vec<u8>>,
    expected: Checksum,
}

impl View for VerifyingStream {
    type V = StreamState;

    closed spec fn view(&self) -> StreamState {
        StreamState {
            hashed: self.hashed@,
            held: match self.held {
                Some(bytes) => Some(bytes@),
                None => None,
            },
            expected: self.expected@,
            open: self.hasher is Some,
        }
    }
}

impl VerifyingStream {
    /// The hasher holds exactly the bytes seen, and their number is counted.
    #[verifier::type_invariant]
    spec fn wf(&self) -> bool {
        &&& self.length == self.hashed@.len()
        &&& self.length <= MAX_MESSAGE
        &&& self.hasher matches Some(hasher) ==> absorbed(hasher) == self.hashed@
    }

    /// Starts a read whose payload must have the digest `expected`.
    pub fn new(expected: Checksum) -> (stream: VerifyingStream)
        ensures
            stream@ == (StreamState {
                hashed: Seq::empty(),
                held: None,
                expected: expected@,
                open: true,
            }),
    {
        let hasher = hasher_new();
        VerifyingStream {
            hasher: Some(hasher),
            hashed: Ghost(Seq::empty()),
            length: 0,
            held: None,
            expected,
        }
    }

    /// Returns how many payload bytes have been seen.
    pub fn hashed_len(&self) -> (length: u64)
        ensures
            length == self@.hashed.len(),
            length <= MAX_MESSAGE,
    {
        proof {
            use_type_invariant(self);
        }
        self.length
    }

    /// Takes in one event and returns the read as it then stands, with what is
    /// to be handed to the reader.
    pub fn step(self, event: StreamEvent) -> (next: (VerifyingStream, Vec<Delivery>))
        requires
            event matches StreamEvent::Chunk(bytes) ==> self@.hashed.len() + bytes@.len()
                <= MAX_MESSAGE,
        ensures
            next.0@ == self@.after(event@),
            delivered(next.1@) == self@.deliveries(event@),
    {
        proof {
            use_type_invariant(&self);
        }
        let ghost before = self@;
        let mut items: Vec<Delivery> = Vec::new();
        let VerifyingStream { hasher, hashed, length, held, expected } = self;
        let mut hasher = match hasher {
            Some(hasher) => hasher,
            None => {
                assert(delivered(items@) =~= Seq::<DeliveryView>::empty());
                return (VerifyingStream { hasher: None, hashed, length, held, expected }, items);
            },
        };
        match event {
            StreamEvent::Chunk(bytes) => {
                hasher_update(&mut hasher, bytes.as_slice());
                let ghost seen = hashed@ + bytes@;
                let length: u64 = length + bytes.len() as u64;
                let held = if bytes.len() == 0 {
                    held
                } else {
                    if let Some(previous) = held {
                        items.push(Delivery::Chunk(previous));
                    }
                    Some(bytes)
                };
                assert(delivered(items@) =~= before.deliveries(event@));
                (
                    VerifyingStream {
                        hasher: Some(hasher),
                        hashed: Ghost(seen),
                        length,
                        held,
                        expected,
                    },
                    items,
                )
            },
            StreamEvent::Failure(error) => {
                if let Some(previous) = held {
                    items.push(Delivery::Chunk(previous));
                }
                items.push(Delivery::Failure(error));
                assert(delivered(items@) =~= before.deliveries(event@));
                (
                    VerifyingStream { hasher: Some(hasher), hashed, length, held: None, expected },
                    items,
                )
            },
            StreamEvent::End => {
                let actual: Digest32 = hasher_finalize(hasher);
                if bytes_equal(&actual, &expected.digest) {
                    if let Some(last) = held {
                        items.push(Delivery::Chunk(last));
                    }
                } else {
                    items.push(Delivery::Failure(StorageError::IntegrityMismatch));
                }
                assert(delivered(items@) =~= before.deliveries(event@));
                (VerifyingStream { hasher: None, hashed, length, held: None, expected }, items)
            },
        }
    }
}

} // verus!
