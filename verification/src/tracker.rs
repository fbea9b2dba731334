//! The map iteration tracker: the state machine that drives one map decode,
//! routing every entry the schema does not claim into the ignored-field
//! container, so that no entry is lost even when the schema stops early.

use vstd::prelude::*;

use crate::error::Error;
use crate::fields::IgnoredFields;
use crate::key::Key;
use crate::value::Value;

verus! {

/// The three states of one map decode.
pub enum TrackerState {
    /// No key is currently retrieved; the schema may ask for the next one.
    Ready,
    /// A key was handed to the schema and its value was not yet requested.
    KeyRetrieved,
    /// The raw source has no more entries.
    Exhausted,
}

/// Tracks one map decode.
///
/// The driver of the raw map cursor reports every step to the tracker: each
/// key it pulled and captured, the end of the entries, and for each pending
/// key whether the schema performed a typed decode (the field is recognized)
/// or the unrecognized-field probe (the pair is captured).  The tracker
/// decides what is captured and keeps the container well formed.
pub struct MapTracker {
    state: TrackerState,
    last_key: Option<Key>,
}

impl MapTracker {
    /// The current state of the map decode.
    pub closed spec fn mode(self) -> TrackerState {
        self.state
    }

    /// The captured key whose value the schema has not yet requested.
    pub closed spec fn pending_key(self) -> Option<Key> {
        self.last_key
    }

    /// Well-formed: a retrieved key is always buffered while the schema
    /// holds it.
    pub open spec fn wf(self) -> bool {
        self.mode() is KeyRetrieved ==> self.pending_key() is Some
    }

    /// A tracker for a map decode that is about to begin.
    pub fn new() -> (t: MapTracker)
        ensures
            t.mode() is Ready,
            t.wf(),
    {
        MapTracker { state: TrackerState::Ready, last_key: None }
    }

    /// Whether the schema abandoned the previously retrieved key without
    /// requesting its value; if so, that orphaned pair must be captured
    /// (via [`MapTracker::capture_ignored`]) before the next key is pulled.
    pub fn needs_orphan_capture(&self) -> (b: bool)
        ensures
            b == (self.mode() is KeyRetrieved),
    {
        match self.state {
            TrackerState::KeyRetrieved => true,
            _ => false,
        }
    }

    /// Record that the next raw entry's key was pulled and captured, and is
    /// now in the schema's hands.
    pub fn record_key(&mut self, key: Key)
        requires
            old(self).mode() is Ready,
        ensures
            final(self).mode() is KeyRetrieved,
            final(self).pending_key() == Some(key),
            final(self).wf(),
    {
        self.state = TrackerState::KeyRetrieved;
        self.last_key = Some(key);
    }

    /// Record that the raw source reported the end of the map.
    pub fn record_end(&mut self)
        requires
            old(self).mode() is Ready,
        ensures
            final(self).mode() is Exhausted,
            final(self).wf(),
    {
        self.state = TrackerState::Exhausted;
    }

    /// Record that the schema performed a normal typed decode of the value
    /// belonging to the retrieved key: the field is recognized and nothing
    /// is captured.
    pub fn value_recognized(&mut self)
        requires
            old(self).mode() is KeyRetrieved,
        ensures
            final(self).mode() is Ready,
            final(self).wf(),
    {
        self.state = TrackerState::Ready;
        self.last_key = None;
    }

    /// Capture the pair of the retrieved key and this value into the
    /// ignored-field container.
    ///
    /// This is the route both of the unrecognized-field probe and of an
    /// orphaned key (one abandoned by the schema without a value request);
    /// in both cases `value` is the generically decoded value belonging to
    /// the buffered key.
    pub fn capture_ignored(&mut self, value: Value, fields: &mut IgnoredFields) -> (r: Result<
        (),
        Error,
    >)
        requires
            old(self).mode() is KeyRetrieved,
            old(self).wf(),
            old(fields).wf(),
        ensures
            final(self).mode() is Ready,
            final(self).wf(),
            final(fields).wf(),
            ({
                let k = old(self).pending_key()->0;
                &&& (r is Ok <==> (k.is_primitive() && !old(fields).has_key(k.model())))
                &&& (r is Ok ==> final(fields).model() == old(fields).model().push(
                    (k.model(), value.model()),
                ))
                &&& (r is Err ==> final(fields).model() == old(fields).model())
                &&& (!k.is_primitive() ==> r == Err::<(), Error>(Error::UnsupportedKeyShape))
                &&& (k.is_primitive() && old(fields).has_key(k.model()) ==> (r matches Err(e)
                    && e == Error::DuplicateIgnoredKey(k)))
            }),
    {
        self.state = TrackerState::Ready;
        let key = match self.last_key.take() {
            Some(k) => k,
            None => {
                proof {
                    assert(false);
                }
                return Err(Error::UnsupportedKeyShape);
            },
        };
        fields.insert(key, value)
    }

    /// Capture one raw entry left over after the schema stopped early.
    ///
    /// The teardown drain pulls every remaining entry of the raw source and
    /// hands it here, so that no portion of the original map is silently
    /// dropped; any error is reported to the caller rather than discarded.
    pub fn capture_remaining(&mut self, raw_key: &Value, value: Value, fields: &mut IgnoredFields) -> (r:
        Result<(), Error>)
        requires
            old(self).mode() is Ready,
            old(fields).wf(),
        ensures
            final(self).mode() is Ready,
            final(self).wf(),
            final(fields).wf(),
            r is Ok <==> (raw_key.model().is_primitive_key() && !old(fields).has_key(
                raw_key.model(),
            )),
            r is Ok ==> final(fields).model() == old(fields).model().push(
                (raw_key.model(), value.model()),
            ),
            r is Err ==> final(fields).model() == old(fields).model(),
            !raw_key.model().is_primitive_key() ==> r == Err::<(), Error>(
                Error::UnsupportedKeyShape,
            ),
            raw_key.model().is_primitive_key() && old(fields).has_key(raw_key.model()) ==> (r
                matches Err(e) && e is DuplicateIgnoredKey && e->DuplicateIgnoredKey_0.model()
                == raw_key.model()),
    {
        let key = Key::capture(raw_key);
        fields.insert(key, value)
    }

    /// The remaining-count estimate handed to the schema: once the raw
    /// source is exhausted there is exactly nothing left, otherwise the raw
    /// source's own estimate is passed through.
    pub fn size_hint(&self, raw_hint: Option<usize>) -> (r: Option<usize>)
        ensures
            self.mode() is Exhausted ==> r == Some(0usize),
            !(self.mode() is Exhausted) ==> r == raw_hint,
    {
        match self.state {
            TrackerState::Exhausted => Some(0),
            _ => raw_hint,
        }
    }
}

} // verus!
