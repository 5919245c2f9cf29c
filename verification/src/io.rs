//! Reading a byte stream to its end through a pair of callbacks: what to
//! ask of the stream next, and what to make of its answers.
//!
//! The stream itself is not here. Whoever owns it asks this module what to
//! do, does it, and reports the answer: a read gives the number of bytes
//! that were put into the chunk, `0` at the end of the stream and a negative
//! number on error; the stream is closed once, after the last read, whether
//! reading succeeded or not.

use vstd::prelude::*;

verus! {

/// The number of bytes that one read asks for.
pub const IO_CHUNK_SIZE: usize = 4096;

/// Where the reading of a stream stands.
#[derive(Debug, PartialEq, Eq, Clone, Copy, Structural)]
pub enum IoPhase {
    /// The stream is to be read.
    Reading,
    /// Reading is over and the stream is to be closed.
    Closing,
    /// The stream was closed.
    Done,
}

/// What is to be done with the stream next.
#[derive(Debug, PartialEq, Eq, Clone, Copy, Structural)]
pub enum IoRequest {
    /// Read at most so many bytes into the chunk.
    Read(usize),
    /// Close the stream, if it can be closed.
    Close,
    /// Nothing is left to do.
    Nothing,
}

/// The reading of one stream, as far as it got.
pub struct IoState {
    pub data: Seq<u8>,
    pub had_error: bool,
    pub phase: IoPhase,
}

impl IoState {
    /// The state before the first read. A stream that cannot be read has
    /// failed and is only to be closed.
    pub open spec fn spec_new(can_read: bool) -> IoState {
        IoState {
            data: Seq::empty(),
            had_error: !can_read,
            phase: if can_read {
                IoPhase::Reading
            } else {
                IoPhase::Closing
            },
        }
    }

    /// What is to be done next.
    pub open spec fn spec_request(self) -> IoRequest {
        match self.phase {
            IoPhase::Reading => IoRequest::Read(IO_CHUNK_SIZE),
            IoPhase::Closing => IoRequest::Close,
            IoPhase::Done => IoRequest::Nothing,
        }
    }

    /// The state after a read answered `read_rc` and left its bytes in
    /// `chunk`: `0` ends the reading; a negative answer, and an answer
    /// larger than what was asked for, end it with an error; any other
    /// answer appends so many bytes of the chunk.
    pub open spec fn spec_on_read(self, read_rc: i32, chunk: Seq<u8>) -> IoState {
        if read_rc == 0 {
            IoState { phase: IoPhase::Closing, ..self }
        } else if read_rc < 0 || read_rc > IO_CHUNK_SIZE {
            IoState { had_error: true, phase: IoPhase::Closing, ..self }
        } else {
            IoState { data: self.data + chunk.subrange(0, read_rc as int), ..self }
        }
    }

    /// The state after the stream was closed.
    pub open spec fn spec_on_close(self) -> IoState {
        IoState { phase: IoPhase::Done, ..self }
    }

    /// What was read, unless reading failed.
    pub open spec fn spec_finish(self) -> Option<Seq<u8>> {
        if self.had_error {
            None
        } else {
            Some(self.data)
        }
    }
}

/// The reading of one stream, as far as it got.
pub struct IoReader {
    data: Vec<u8>,
    had_error: bool,
    phase: IoPhase,
}

impl View for IoReader {
    type V = IoState;

    closed spec fn view(&self) -> IoState {
        IoState { data: self.data@, had_error: self.had_error, phase: self.phase }
    }
}

impl IoReader {
    /// Starts reading a stream; `can_read` says whether the stream has a
    /// callback to read it with.
    pub fn new(can_read: bool) -> (reader: IoReader)
        ensures
            reader@ == IoState::spec_new(can_read),
    {
        IoReader {
            data: Vec::new(),
            had_error: !can_read,
            phase: if can_read {
                IoPhase::Reading
            } else {
                IoPhase::Closing
            },
        }
    }

    /// What is to be done with the stream next.
    pub fn request(&self) -> (request: IoRequest)
        ensures
            request == self@.spec_request(),
    {
        match self.phase {
            IoPhase::Reading => IoRequest::Read(IO_CHUNK_SIZE),
            IoPhase::Closing => IoRequest::Close,
            IoPhase::Done => IoRequest::Nothing,
        }
    }

    /// Takes the answer of a read: `read_rc` is what the read returned and
    /// `chunk` the memory that it wrote to.
    pub fn on_read(&mut self, read_rc: i32, chunk: &[u8])
        requires
            old(self)@.phase == IoPhase::Reading,
            0 < read_rc <= IO_CHUNK_SIZE ==> chunk@.len() >= read_rc,
        ensures
            final(self)@ == old(self)@.spec_on_read(read_rc, chunk@),
    {
        if read_rc == 0 {
            self.phase = IoPhase::Closing;
            return ;
        }
        if read_rc < 0 {
            self.had_error = true;
            self.phase = IoPhase::Closing;
            return ;
        }
        let read_usize = read_rc as usize;
        if read_usize > IO_CHUNK_SIZE {
            self.had_error = true;
            self.phase = IoPhase::Closing;
            return ;
        }
        self.data.extend_from_slice(vstd::slice::slice_subrange(chunk, 0, read_usize));
        assert(self.data@ =~= old(self).data@ + chunk@.subrange(0, read_rc as int));
    }

    /// Takes note that the stream was closed, or could not be closed.
    pub fn on_close(&mut self)
        requires
            old(self)@.phase == IoPhase::Closing,
        ensures
            final(self)@ == old(self)@.spec_on_close(),
    {
        self.phase = IoPhase::Done;
    }

    /// Ends the reading and returns what was read, or nothing where reading
    /// failed.
    pub fn finish(self) -> (data: Option<Vec<u8>>)
        ensures
            crate::extras::spec_option_view(data) == self@.spec_finish(),
    {
        if self.had_error {
            None
        } else {
            Some(self.data)
        }
    }
}

/// A stream is closed once, after reading is over, whether reading
/// succeeded or not: closing is asked for exactly while reading is over and
/// the stream is not closed; every answer of a read leaves the stream to be
/// read or to be closed; and once the stream is closed nothing more is
/// asked of it.
pub proof fn lemma_closed_once(state: IoState, read_rc: i32, chunk: Seq<u8>)
    ensures
        state.spec_request() == IoRequest::Close <==> state.phase == IoPhase::Closing,
        state.phase == IoPhase::Reading ==> state.spec_on_read(read_rc, chunk).phase
            == IoPhase::Reading || state.spec_on_read(read_rc, chunk).phase == IoPhase::Closing,
        state.phase == IoPhase::Reading ==> (state.spec_on_read(read_rc, chunk).phase
            == IoPhase::Closing <==> read_rc <= 0 || read_rc > IO_CHUNK_SIZE),
        state.spec_on_close().spec_request() == IoRequest::Nothing,
        IoState::spec_new(false).spec_request() == IoRequest::Close,
        IoState::spec_new(false).spec_finish() is None,
{
}

} // verus!
