//! The incremental front-end: chunks are buffered, and the parser engine
//! runs once over all of them when the last chunk is announced. Nothing is
//! parsed before that.
//!
//! A parse that is fed in chunks is accumulating, stopped or terminated. It
//! starts accumulating. Stopping it makes every chunk fail until it is
//! resumed. The last chunk terminates it.

use std::collections::HashMap;
use vstd::prelude::*;

verus! {

broadcast use vstd::std_specs::hash::group_hash_axioms;

/// The state of a parse that is fed in chunks: what was fed so far, whether
/// it is stopped, and whether the last chunk was announced.
pub struct PushState {
    pub buffer: Seq<u8>,
    pub stopped: bool,
    pub terminated: bool,
}

/// What is to be done after a chunk was offered.
pub enum PushAction {
    /// The parse is stopped: the chunk was refused and nothing changed.
    Rejected,
    /// The chunk was buffered and more is to come.
    Buffered,
    /// The chunk was the last one: the bytes are everything that was fed,
    /// and are to be parsed now.
    Parse(Vec<u8>),
}

impl PushState {
    /// A parse that is accumulating, with `chunk` fed.
    pub open spec fn spec_new(chunk: Seq<u8>) -> PushState {
        PushState { buffer: chunk, stopped: false, terminated: false }
    }

    /// The state after `chunk` was offered: unchanged where the parse is
    /// stopped; else the chunk is appended, and where it is the last one the
    /// parse is terminated and its buffer handed out.
    pub open spec fn spec_feed(self, chunk: Seq<u8>, terminate: bool) -> PushState {
        if self.stopped {
            self
        } else if terminate {
            PushState { buffer: Seq::empty(), stopped: false, terminated: true }
        } else {
            PushState { buffer: self.buffer + chunk, ..self }
        }
    }

    /// Whether a chunk that is offered is taken.
    pub open spec fn spec_accepts(self) -> bool {
        !self.stopped
    }

    /// The stopped parse.
    pub open spec fn spec_stop(self) -> PushState {
        PushState { stopped: true, ..self }
    }

    /// Whether the parse can be resumed: it is stopped and not terminated.
    pub open spec fn spec_can_resume(self) -> bool {
        self.stopped && !self.terminated
    }

    /// The parse after a resume: accumulating again where it could be
    /// resumed, else unchanged.
    pub open spec fn spec_resume(self) -> PushState {
        if self.spec_can_resume() {
            PushState { stopped: false, ..self }
        } else {
            self
        }
    }
}

/// The state of a parse that is fed in chunks.
pub struct PushParserState {
    buffer: Vec<u8>,
    stopped: bool,
    terminated: bool,
}

impl View for PushParserState {
    type V = PushState;

    closed spec fn view(&self) -> PushState {
        PushState { buffer: self.buffer@, stopped: self.stopped, terminated: self.terminated }
    }
}

impl PushParserState {
    /// A parse that is accumulating, with `chunk` fed.
    pub fn new(chunk: &[u8]) -> (state: PushParserState)
        ensures
            state@ == PushState::spec_new(chunk@),
    {
        let mut buffer: Vec<u8> = Vec::new();
        buffer.extend_from_slice(chunk);
        assert(buffer@ =~= chunk@);
        PushParserState { buffer, stopped: false, terminated: false }
    }

    /// Offers a chunk, which is the last one if `terminate` is set.
    ///
    /// A stopped parse refuses it. Otherwise the chunk is buffered, and with
    /// the last chunk the parse is terminated and everything that was fed is
    /// handed out for parsing.
    pub fn feed(&mut self, chunk: &[u8], terminate: bool) -> (action: PushAction)
        ensures
            final(self)@ == old(self)@.spec_feed(chunk@, terminate),
            action is Rejected <==> !old(self)@.spec_accepts(),
            action is Parse <==> old(self)@.spec_accepts() && terminate,
            action matches PushAction::Parse(bytes) ==> bytes@ == old(self)@.buffer + chunk@,
    {
        if self.stopped {
            return PushAction::Rejected;
        }
        self.buffer.extend_from_slice(chunk);
        if terminate {
            self.terminated = true;
            let mut taken: Vec<u8> = Vec::new();
            core::mem::swap(&mut self.buffer, &mut taken);
            assert(self.buffer@ =~= Seq::<u8>::empty());
            PushAction::Parse(taken)
        } else {
            assert(self.buffer@ =~= old(self).buffer@ + chunk@);
            PushAction::Buffered
        }
    }

    /// Stops the parse: chunks are refused until it is resumed.
    pub fn stop(&mut self)
        ensures
            final(self)@ == old(self)@.spec_stop(),
    {
        self.stopped = true;
    }

    /// Resumes a stopped parse that is not terminated, and says whether it
    /// did.
    pub fn resume(&mut self) -> (resumed: bool)
        ensures
            resumed == old(self)@.spec_can_resume(),
            final(self)@ == old(self)@.spec_resume(),
    {
        if self.stopped && !self.terminated {
            self.stopped = false;
            true
        } else {
            false
        }
    }
}

/// The table of the parses that are fed in chunks, keyed by the address of
/// their parser context.
///
/// The table is a plain value. Whoever shares one table among several
/// callers guards it with one lock, so that the operations on one context
/// follow one another.
pub struct PushParserTable {
    states: HashMap<usize, PushParserState>,
}

impl View for PushParserTable {
    type V = Map<usize, PushState>;

    closed spec fn view(&self) -> Map<usize, PushState> {
        Map::new(|key: usize| self.states@.contains_key(key), |key: usize| self.states@[key]@)
    }
}

impl PushParserTable {
    /// A table without entries.
    pub fn new() -> (table: PushParserTable)
        ensures
            table@ == Map::<usize, PushState>::empty(),
    {
        let table = PushParserTable { states: HashMap::new() };
        assert(table@ =~= Map::<usize, PushState>::empty());
        table
    }

    /// Whether the table holds a parse for the context at `ctxt`.
    pub fn contains(&self, ctxt: usize) -> (present: bool)
        ensures
            present == self@.contains_key(ctxt),
    {
        self.states.contains_key(&ctxt)
    }

    /// Removes and returns the parse of the context at `ctxt`.
    pub fn take(&mut self, ctxt: usize) -> (state: Option<PushParserState>)
        ensures
            final(self)@ == old(self)@.remove(ctxt),
            state is Some <==> old(self)@.contains_key(ctxt),
            state matches Some(found) ==> found@ == old(self)@[ctxt],
    {
        let state = self.states.remove(&ctxt);
        assert(self@ =~= old(self)@.remove(ctxt));
        state
    }
}

/// Enters `state` as the parse of the context at `ctxt`, in place of what
/// the table may hold for it.
pub fn register_push_state(table: &mut PushParserTable, ctxt: usize, state: PushParserState)
    ensures
        final(table)@ == old(table)@.insert(ctxt, state@),
{
    table.states.insert(ctxt, state);
    assert(table@ =~= old(table)@.insert(ctxt, state@));
}

/// Forgets the parse of the context at `ctxt`; an absent context has none.
pub fn clear_push_state(table: &mut PushParserTable, ctxt: Option<usize>)
    ensures
        final(table)@ == match ctxt {
            Some(key) => old(table)@.remove(key),
            None => old(table)@,
        },
{
    match ctxt {
        None => {},
        Some(key) => {
            let _ = table.take(key);
        },
    }
}

/// Every chunk that is offered to a stopped parse is refused and leaves the
/// parse as it was.
pub proof fn lemma_feed_after_stop_fails(state: PushState, chunk: Seq<u8>, terminate: bool)
    ensures
        !state.spec_stop().spec_accepts(),
        state.spec_stop().spec_feed(chunk, terminate) == state.spec_stop(),
{
}

/// A parse that was stopped before its last chunk and then resumed takes
/// chunks again, and holds what it held before it was stopped.
pub proof fn lemma_resume_after_stop_feeds(state: PushState)
    requires
        !state.terminated,
    ensures
        state.spec_stop().spec_can_resume(),
        state.spec_stop().spec_resume().spec_accepts(),
        state.spec_stop().spec_resume().buffer == state.buffer,
        !state.spec_stop().spec_resume().terminated,
{
}

} // verus!
