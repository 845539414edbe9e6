//! Applying ordered batches of change events to a document's text.

use vstd::prelude::*;
use vstd::utf8::*;
use crate::position::{offset_of, position_to_offset, Position, Range};

verus! {

broadcast use vstd::utf8::group_utf8_lib;

/// One change sent by the editor: a replacement of the whole text when
/// `range` is `None`, else a replacement of the text inside `range`.
#[derive(Clone, Debug)]
pub struct ChangeEvent {
    pub range: Option<Range>,
    pub text: String,
}

/// Why a change event could not be applied.
#[derive(Clone, Copy, Debug, PartialEq, Eq, Structural)]
pub enum PatchError {
    /// The position does not exist in the document's current text.
    UnresolvedPosition(Position),
    /// The range ends before it starts (byte offsets of start and end).
    InvertedRange(usize, usize),
}

/// The UTF-8 bytes of a text.
pub open spec fn bytes_of(s: Seq<char>) -> Seq<u8> {
    encode_utf8(s)
}

/// `doc` with the bytes in `[start, end)` replaced by `text`.
pub open spec fn splice(doc: Seq<u8>, start: int, end: int, text: Seq<u8>) -> Seq<u8> {
    doc.subrange(0, start) + text + doc.subrange(end, doc.len() as int)
}

/// The result of applying one event to the bytes `doc`.
pub open spec fn apply_event(doc: Seq<u8>, event: ChangeEvent) -> Result<Seq<u8>, PatchError> {
    match event.range {
        None => Ok(bytes_of(event.text@)),
        Some(r) => {
            let start = offset_of(doc, r.start.line as nat, r.start.character as nat);
            let end = offset_of(doc, r.end.line as nat, r.end.character as nat);
            if start is None {
                Err(PatchError::UnresolvedPosition(r.start))
            } else if end is None {
                Err(PatchError::UnresolvedPosition(r.end))
            } else if start->0 > end->0 {
                Err(PatchError::InvertedRange(start->0 as usize, end->0 as usize))
            } else {
                Ok(splice(doc, start->0, end->0, bytes_of(event.text@)))
            }
        },
    }
}

/// The result of applying `events` in order, each to the result of the ones
/// before it; the first failure ends the batch.
pub open spec fn apply_events(doc: Seq<u8>, events: Seq<ChangeEvent>) -> Result<Seq<u8>, PatchError>
    decreases events.len(),
{
    if events.len() == 0 {
        Ok(doc)
    } else {
        match apply_events(doc, events.drop_last()) {
            Ok(d) => apply_event(d, events.last()),
            Err(e) => Err(e),
        }
    }
}

/// Relies on String::replace_range: the bytes between the two offsets are
/// replaced by those of `text`. It panics unless both offsets are character
/// boundaries with `start <= end`, which `requires` rules out.
#[verifier::external_body]
fn replace_range(doc: &mut String, start: usize, end: usize, text: &str)
    requires
        start <= end <= bytes_of(old(doc)@).len(),
        is_char_boundary(bytes_of(old(doc)@), start as int),
        is_char_boundary(bytes_of(old(doc)@), end as int),
    ensures
        bytes_of(final(doc)@) == splice(bytes_of(old(doc)@), start as int, end as int, bytes_of(text@)),
{
    doc.replace_range(start..end, text)
}

/// Applies one change event to `doc`. On failure `doc` is left as it was.
pub fn apply_change(doc: &mut String, event: &ChangeEvent) -> (r: Result<(), PatchError>)
    ensures
        match apply_event(bytes_of(old(doc)@), *event) {
            Ok(d) => r is Ok && bytes_of(final(doc)@) == d,
            Err(e) => r == Err::<(), PatchError>(e) && final(doc)@ == old(doc)@,
        },
{
    match event.range {
        None => {
            *doc = event.text.clone();
            Ok(())
        },
        Some(range) => {
            let start = match position_to_offset(range.start, doc.as_str()) {
                Some(o) => o,
                None => return Err(PatchError::UnresolvedPosition(range.start)),
            };
            let end = match position_to_offset(range.end, doc.as_str()) {
                Some(o) => o,
                None => return Err(PatchError::UnresolvedPosition(range.end)),
            };
            if start > end {
                return Err(PatchError::InvertedRange(start, end));
            }
            replace_range(doc, start, end, event.text.as_str());
            Ok(())
        },
    }
}

/// Applies `events` in order, each against the text that the ones before it
/// left. The batch is applied whole or not at all: on failure `doc` is left as
/// it was.
pub fn apply_changes(doc: &mut String, events: &Vec<ChangeEvent>) -> (r: Result<(), PatchError>)
    ensures
        match apply_events(bytes_of(old(doc)@), events@) {
            Ok(d) => r is Ok && bytes_of(final(doc)@) == d,
            Err(e) => r == Err::<(), PatchError>(e) && final(doc)@ == old(doc)@,
        },
{
    let mut work = doc.clone();
    let mut i: usize = 0;
    while i < events.len()
        invariant
            i <= events.len(),
            apply_events(bytes_of(doc@), events@.subrange(0, i as int)) == Ok::<Seq<u8>, PatchError>(bytes_of(work@)),
        decreases events.len() - i,
    {
        let ghost before = work@;
        assert(events@.subrange(0, i as int + 1).drop_last() =~= events@.subrange(0, i as int));
        match apply_change(&mut work, &events[i]) {
            Ok(()) => {},
            Err(e) => {
                proof {
                    lemma_batch_stops_at_failure(bytes_of(doc@), events@, i as int + 1);
                }
                return Err(e);
            },
        }
        i = i + 1;
    }
    assert(events@.subrange(0, i as int) =~= events@);
    *doc = work;
    Ok(())
}

/// A full-replacement event always yields exactly its own text.
pub proof fn lemma_full_replacement(doc: Seq<u8>, event: ChangeEvent)
    requires
        event.range is None,
    ensures
        apply_event(doc, event) == Ok::<Seq<u8>, PatchError>(bytes_of(event.text@)),
{
}

/// A batch of two events gives what applying the first one, and then the
/// second one to the text that the first left, gives.
pub proof fn lemma_two_event_batch(doc: Seq<u8>, first: ChangeEvent, second: ChangeEvent)
    ensures
        apply_events(doc, seq![first, second]) == match apply_event(doc, first) {
            Ok(d) => apply_event(d, second),
            Err(e) => Err(e),
        },
{
    let evs = seq![first, second];
    assert(evs.drop_last() =~= seq![first]);
    assert(seq![first].drop_last() =~= Seq::<ChangeEvent>::empty());
    assert(apply_events(doc, Seq::<ChangeEvent>::empty()) == Ok::<Seq<u8>, PatchError>(doc));
    assert(apply_events(doc, seq![first]) == apply_event(doc, first));
}

/// Once a prefix of a batch fails, the whole batch fails with the same error.
proof fn lemma_batch_stops_at_failure(doc: Seq<u8>, events: Seq<ChangeEvent>, k: int)
    requires
        0 <= k <= events.len(),
        apply_events(doc, events.subrange(0, k)) is Err,
    ensures
        apply_events(doc, events) == apply_events(doc, events.subrange(0, k)),
    decreases events.len() - k,
{
    if k < events.len() {
        assert(events.subrange(0, k + 1).drop_last() =~= events.subrange(0, k));
        lemma_batch_stops_at_failure(doc, events, k + 1);
    } else {
        assert(events.subrange(0, k) =~= events);
    }
}

} // verus!
