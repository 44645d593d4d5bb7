//! What a verified read guarantees over a whole payload.

use vstd::prelude::*;

use crate::digest::{sha256, Digest32};
use crate::integrity::{
    delivered, Delivery, DeliveryView, EventView, StorageError, StreamEvent, StreamState,
};

verus! {

/// A read that has seen nothing yet.
pub open spec fn fresh(expected: Digest32) -> StreamState {
    StreamState { hashed: Seq::empty(), held: None, expected, open: true }
}

/// The state after all of `events`.
pub open spec fn state_after(start: StreamState, events: Seq<EventView>) -> StreamState
    decreases events.len(),
{
    if events.len() == 0 {
        start
    } else {
        state_after(start, events.drop_last()).after(events.last())
    }
}

/// Everything that `events` have delivered, in order.
pub open spec fn all_deliveries(start: StreamState, events: Seq<EventView>) -> Seq<DeliveryView>
    decreases events.len(),
{
    if events.len() == 0 {
        Seq::empty()
    } else {
        all_deliveries(start, events.drop_last()) + state_after(
            start,
            events.drop_last(),
        ).deliveries(events.last())
    }
}

/// The payload that a sequence of chunks makes up.
pub open spec fn payload(chunks: Seq<Seq<u8>>) -> Seq<u8>
    decreases chunks.len(),
{
    if chunks.len() == 0 {
        Seq::empty()
    } else {
        payload(chunks.drop_last()) + chunks.last()
    }
}

/// The chunks that hold anything, as deliveries.
pub open spec fn full_chunks(chunks: Seq<Seq<u8>>) -> Seq<DeliveryView>
    decreases chunks.len(),
{
    if chunks.len() == 0 {
        Seq::empty()
    } else if chunks.last().len() == 0 {
        full_chunks(chunks.drop_last())
    } else {
        full_chunks(chunks.drop_last()).push(DeliveryView::Chunk(chunks.last()))
    }
}

/// A payload's chunks, one event each.
pub open spec fn chunk_events(chunks: Seq<Seq<u8>>) -> Seq<EventView> {
    Seq::new(chunks.len(), |i: int| EventView::Chunk(chunks[i]))
}

/// A payload read to its end.
pub open spec fn whole_read(chunks: Seq<Seq<u8>>) -> Seq<EventView> {
    chunk_events(chunks).push(EventView::End)
}

proof fn lemma_while_streaming(expected: Digest32, chunks: Seq<Seq<u8>>)
    ensures
        ({
            let events = chunk_events(chunks);
            let state = state_after(fresh(expected), events);
            &&& state.open
            &&& state.expected == expected
            &&& state.hashed == payload(chunks)
            &&& all_deliveries(fresh(expected), events) + state.released() == full_chunks(chunks)
        }),
    decreases chunks.len(),
{
    let events = chunk_events(chunks);
    let start = fresh(expected);
    if chunks.len() == 0 {
        assert(all_deliveries(start, events) + start.released() =~= Seq::<DeliveryView>::empty());
    } else {
        let fewer = chunks.drop_last();
        lemma_while_streaming(expected, fewer);
        assert(events.drop_last() =~= chunk_events(fewer));
        let after = state_after(start, events);
        assert(all_deliveries(start, events) + after.released() =~= full_chunks(chunks));
    }
}

/// A read of an intact payload delivers every byte of it, in order and in the
/// chunks it was stored in, and no failure.
pub proof fn law_intact_read_delivers_the_payload(expected: Digest32, chunks: Seq<Seq<u8>>)
    requires
        sha256(payload(chunks)) == expected,
    ensures
        all_deliveries(fresh(expected), whole_read(chunks)) == full_chunks(chunks),
{
    lemma_while_streaming(expected, chunks);
    assert(whole_read(chunks).drop_last() =~= chunk_events(chunks));
}

/// A read of a corrupt payload fails, before its final chunk is delivered.
pub proof fn law_corrupt_read_fails_before_its_final_chunk(
    expected: Digest32,
    chunks: Seq<Seq<u8>>,
)
    requires
        sha256(payload(chunks)) != expected,
    ensures
        ({
            let full = full_chunks(chunks);
            all_deliveries(fresh(expected), whole_read(chunks)) == (if full.len() == 0 {
                full
            } else {
                full.drop_last()
            }).push(DeliveryView::Failure(StorageError::IntegrityMismatch))
        }),
{
    lemma_while_streaming(expected, chunks);
    assert(whole_read(chunks).drop_last() =~= chunk_events(chunks));
    let sent = all_deliveries(fresh(expected), chunk_events(chunks));
    lemma_held_is_last(expected, chunks);
    let full = full_chunks(chunks);
    if full.len() == 0 {
        assert(sent =~= full);
    } else {
        assert(sent =~= full.drop_last());
    }
}

proof fn lemma_held_is_last(expected: Digest32, chunks: Seq<Seq<u8>>)
    ensures
        state_after(fresh(expected), chunk_events(chunks)).held is Some <==> full_chunks(
            chunks,
        ).len() > 0,
    decreases chunks.len(),
{
    if chunks.len() > 0 {
        let fewer = chunks.drop_last();
        lemma_held_is_last(expected, fewer);
        lemma_while_streaming(expected, fewer);
        assert(chunk_events(chunks).drop_last() =~= chunk_events(fewer));
    }
}

/// Everything that was read before the end, as deliveries: the chunks that hold
/// anything and the failures of the medium, in the order they came in.
pub open spec fn passed_on(events: Seq<EventView>) -> Seq<DeliveryView>
    decreases events.len(),
{
    if events.len() == 0 {
        Seq::empty()
    } else {
        let before = passed_on(events.drop_last());
        match events.last() {
            EventView::Chunk(bytes) => if bytes.len() == 0 {
                before
            } else {
                before.push(DeliveryView::Chunk(bytes))
            },
            EventView::Failure(error) => before.push(DeliveryView::Failure(error)),
            EventView::End => before,
        }
    }
}

/// The bytes of the chunks that were read.
pub open spec fn bytes_read(events: Seq<EventView>) -> Seq<u8>
    decreases events.len(),
{
    if events.len() == 0 {
        Seq::empty()
    } else {
        match events.last() {
            EventView::Chunk(bytes) => bytes_read(events.drop_last()) + bytes,
            _ => bytes_read(events.drop_last()),
        }
    }
}

/// Whether the end has not come yet.
pub open spec fn not_ended(events: Seq<EventView>) -> bool {
    forall|i: int| 0 <= i < events.len() ==> !((#[trigger] events[i]) is End)
}

proof fn lemma_before_the_end(expected: Digest32, events: Seq<EventView>)
    requires
        not_ended(events),
    ensures
        ({
            let state = state_after(fresh(expected), events);
            let sent = all_deliveries(fresh(expected), events);
            &&& state.open
            &&& state.expected == expected
            &&& state.hashed == bytes_read(events)
            &&& sent + state.released() == passed_on(events)
            &&& state.held is Some <==> passed_on(events).len() > 0 && passed_on(events).last()
                is Chunk
        }),
    decreases events.len(),
{
    let start = fresh(expected);
    let state = state_after(start, events);
    if events.len() == 0 {
        assert(all_deliveries(start, events) + state.released() =~= passed_on(events));
    } else {
        let fewer = events.drop_last();
        assert forall|i: int| 0 <= i < fewer.len() implies !((#[trigger] fewer[i]) is End) by {
            assert(fewer[i] == events[i]);
        }
        lemma_before_the_end(expected, fewer);
        assert(!(events[events.len() - 1] is End));
        assert(all_deliveries(start, events) + state.released() =~= passed_on(events));
    }
}

/// A failure of the medium reaches the reader in its place, wherever among the
/// chunks it comes: behind every chunk read before it, with nothing held back,
/// and ahead of what is read after it. The read goes on, and at its end the
/// digest of the chunks decides about the last one.
pub proof fn law_medium_failure_is_passed_on(expected: Digest32, events: Seq<EventView>)
    requires
        not_ended(events),
    ensures
        events.len() > 0 && events.last() is Failure ==> all_deliveries(fresh(expected), events)
            == passed_on(events),
        sha256(bytes_read(events)) == expected ==> all_deliveries(
            fresh(expected),
            events.push(EventView::End),
        ) == passed_on(events),
        sha256(bytes_read(events)) != expected ==> all_deliveries(
            fresh(expected),
            events.push(EventView::End),
        ) == (if passed_on(events).len() > 0 && passed_on(events).last() is Chunk {
            passed_on(events).drop_last()
        } else {
            passed_on(events)
        }).push(DeliveryView::Failure(StorageError::IntegrityMismatch)),
{
    lemma_before_the_end(expected, events);
    let whole = events.push(EventView::End);
    assert(whole.drop_last() =~= events);
    let sent = all_deliveries(fresh(expected), events);
    let state = state_after(fresh(expected), events);
    if state.held is Some {
        assert(sent =~= passed_on(events).drop_last());
    } else {
        assert(sent =~= passed_on(events));
    }
}

/// Nothing is delivered once the end has been reached.
pub proof fn law_nothing_follows_the_end(state: StreamState, event: EventView)
    ensures
        state.after(EventView::End).deliveries(event) == Seq::<DeliveryView>::empty(),
        state.after(EventView::End).after(event) == state.after(EventView::End),
{
}

/// Nothing is kept from the reader but the last chunk: at every moment before the
/// end all that was read has been delivered, except for a chunk that nothing has
/// followed yet.
pub proof fn law_only_the_last_chunk_is_held_back(expected: Digest32, events: Seq<EventView>)
    requires
        not_ended(events),
    ensures
        all_deliveries(fresh(expected), events) == (if passed_on(events).len() > 0 && passed_on(
            events,
        ).last() is Chunk {
            passed_on(events).drop_last()
        } else {
            passed_on(events)
        }),
{
    lemma_before_the_end(expected, events);
    let sent = all_deliveries(fresh(expected), events);
    if state_after(fresh(expected), events).held is Some {
        assert(sent =~= passed_on(events).drop_last());
    } else {
        assert(sent =~= passed_on(events));
    }
}

/// What comes in and what goes out is spoken of byte for byte and item for item.
pub proof fn law_views_are_the_contents(
    bytes: Vec<u8>,
    error: StorageError,
    items: Seq<Delivery>,
    at: int,
)
    requires
        0 <= at < items.len(),
    ensures
        StreamEvent::Chunk(bytes)@ == EventView::Chunk(bytes@),
        StreamEvent::Failure(error)@ == EventView::Failure(error),
        StreamEvent::End@ is End,
        Delivery::Chunk(bytes)@ == DeliveryView::Chunk(bytes@),
        Delivery::Failure(error)@ == DeliveryView::Failure(error),
        delivered(items).len() == items.len(),
        delivered(items)[at] == items[at]@,
{
}

} // verus!
