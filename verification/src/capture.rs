//! Capturing the output of a command, up to a limit.

use crate::io_failure::{ErrorKind, IoFailure, IoFailureView};
use vstd::prelude::*;
use vstd::slice::slice_subrange;

verus! {

/// How many reads one stream gets before the other has its turn.
pub const MAX_STREAM_READS_PER_TICK: usize = 16;

/// The text that bytes are shown as, whatever they are.
pub uninterp spec fn lossy_text(bytes: Seq<u8>) -> Seq<char>;

/// Decodes with `String::from_utf8_lossy`, which gives valid UTF-8 back as it is
/// and puts a replacement character for what is not UTF-8. How it cuts such
/// bytes up is left to its name.
#[verifier::external_body]
fn decode_lossy(bytes: &[u8]) -> (text: String)
    ensures
        text@ == lossy_text(bytes@),
        vstd::utf8::valid_utf8(bytes@) ==> text@ == vstd::utf8::decode_utf8(bytes@),
{
    String::from_utf8_lossy(bytes).into_owned()
}

/// The beginning of a stream, and how long all of it was.
pub struct CapturedStream {
    retained: Vec<u8>,
    total_bytes: u64,
    max_bytes: usize,
    truncated: bool,
}

/// The mathematical value of a [`CapturedStream`].
pub struct CaptureView {
    pub retained: Seq<u8>,
    pub total_bytes: u64,
    pub max_bytes: nat,
    pub truncated: bool,
}

impl View for CapturedStream {
    type V = CaptureView;

    closed spec fn view(&self) -> CaptureView {
        CaptureView {
            retained: self.retained@,
            total_bytes: self.total_bytes,
            max_bytes: self.max_bytes as nat,
            truncated: self.truncated,
        }
    }
}

impl CaptureView {
    /// A stream before its first byte.
    pub open spec fn initial(max_bytes: nat) -> CaptureView {
        CaptureView { retained: Seq::empty(), total_bytes: 0, max_bytes, truncated: false }
    }

    /// No more is retained than the limit allows.
    pub open spec fn well_formed(self) -> bool {
        self.retained.len() <= self.max_bytes
    }

    /// The stream behind some more bytes: as many of them are retained as the
    /// limit allows.
    pub open spec fn pushed(self, bytes: Seq<u8>) -> CaptureView {
        let room = self.max_bytes - self.retained.len();
        CaptureView {
            retained: if bytes.len() <= room {
                self.retained + bytes
            } else {
                self.retained + bytes.take(room)
            },
            total_bytes: if self.total_bytes + bytes.len() > u64::MAX {
                u64::MAX
            } else {
                (self.total_bytes + bytes.len()) as u64
            },
            truncated: self.truncated || bytes.len() > room,
            ..self
        }
    }
}

impl CapturedStream {
    /// A stream before its first byte, of which `max_bytes` are retained.
    pub fn new(max_bytes: usize) -> (stream: CapturedStream)
        ensures
            stream@ == CaptureView::initial(max_bytes as nat),
            stream@.well_formed(),
    {
        CapturedStream { retained: Vec::new(), total_bytes: 0, max_bytes, truncated: false }
    }

    /// Takes some more bytes.
    pub fn push(&mut self, bytes: &[u8])
        requires
            old(self)@.well_formed(),
        ensures
            final(self)@ == old(self)@.pushed(bytes@),
            final(self)@.well_formed(),
    {
        let length: usize = bytes.len();
        let added: u64 = length as u64;
        self.total_bytes = if self.total_bytes > u64::MAX - added {
            u64::MAX
        } else {
            self.total_bytes + added
        };
        let room: usize = self.max_bytes - self.retained.len();
        if length <= room {
            self.retained.extend_from_slice(bytes);
            assert(self.retained@ =~= old(self).retained@ + bytes@);
        } else {
            let kept = slice_subrange(bytes, 0, room);
            self.retained.extend_from_slice(kept);
            self.truncated = true;
            assert(kept@ =~= bytes@.take(room as int));
            assert(self.retained@ =~= old(self).retained@ + bytes@.take(room as int));
        }
    }

    /// The retained bytes as text.
    pub fn text(&self) -> (text: String)
        ensures
            text@ == lossy_text(self@.retained),
            vstd::utf8::valid_utf8(self@.retained) ==> text@ == vstd::utf8::decode_utf8(
                self@.retained,
            ),
    {
        decode_lossy(self.retained.as_slice())
    }

    /// The length of the whole stream.
    pub fn total_bytes(&self) -> (count: u64)
        ensures
            count == self@.total_bytes,
    {
        self.total_bytes
    }

    /// Whether some bytes were not retained.
    pub fn truncated(&self) -> (result: bool)
        ensures
            result == self@.truncated,
    {
        self.truncated
    }
}

/// What is kept of a stream does not depend on the pieces that it comes in.
pub proof fn law_pieces_are_captured_alike(capture: CaptureView, first: Seq<u8>, second: Seq<u8>)
    requires
        capture.well_formed(),
    ensures
        capture.pushed(first).pushed(second) == capture.pushed(first + second),
{
    let room = capture.max_bytes - capture.retained.len();
    let both = first + second;
    let apart = capture.pushed(first).pushed(second);
    let together = capture.pushed(both);
    if first.len() <= room {
        let left = room - first.len();
        if second.len() <= left {
            assert(apart.retained == together.retained);
        } else {
            assert(both.take(room) == first + second.take(left));
            assert(apart.retained == together.retained);
        }
    } else {
        assert(both.take(room) == first.take(room));
        assert(second.take(0) == Seq::<u8>::empty());
        assert(apart.retained == together.retained);
    }
}

/// Of a whole stream its beginning is kept, as long as the limit allows, and it
/// is said exactly where something is missing.
pub proof fn law_the_beginning_is_captured(max_bytes: nat, bytes: Seq<u8>)
    ensures
        ({
            let capture = CaptureView::initial(max_bytes).pushed(bytes);
            &&& capture.retained.is_prefix_of(bytes)
            &&& capture.retained.len() == if bytes.len() <= max_bytes {
                bytes.len()
            } else {
                max_bytes
            }
            &&& capture.truncated <==> capture.retained != bytes
            &&& bytes.len() <= u64::MAX ==> capture.total_bytes == bytes.len()
        }),
{
    let capture = CaptureView::initial(max_bytes).pushed(bytes);
    if bytes.len() <= max_bytes {
        assert(capture.retained == bytes);
    } else {
        assert(capture.retained == bytes.take(max_bytes as int));
    }
}

/// What one read of a stream gave.
#[derive(Debug, PartialEq, Eq)]
pub enum StreamRead {
    Bytes(Vec<u8>),
    End,
    Failed(IoFailure),
}

/// The mathematical value of a [`StreamRead`].
pub enum ReadView {
    Bytes(Seq<u8>),
    End,
    Failed(IoFailureView),
}

impl View for StreamRead {
    type V = ReadView;

    open spec fn view(&self) -> ReadView {
        match self {
            StreamRead::Bytes(bytes) => ReadView::Bytes(bytes@),
            StreamRead::End => ReadView::End,
            StreamRead::Failed(source) => ReadView::Failed(source@),
        }
    }
}

/// A stream that is read in turns.
pub struct OutputStream {
    capture: CapturedStream,
    done: bool,
    reads: usize,
    progressed: bool,
}

/// The mathematical value of an [`OutputStream`].
pub struct StreamView {
    pub capture: CaptureView,
    /// Whether its end has been seen.
    pub done: bool,
    /// The reads of this turn.
    pub reads: nat,
    /// Whether one of them brought something.
    pub progressed: bool,
}

impl View for OutputStream {
    type V = StreamView;

    closed spec fn view(&self) -> StreamView {
        StreamView {
            capture: self.capture@,
            done: self.done,
            reads: self.reads as nat,
            progressed: self.progressed,
        }
    }
}

impl StreamView {
    /// A stream before its first read.
    pub open spec fn initial(max_bytes: nat) -> StreamView {
        StreamView {
            capture: CaptureView::initial(max_bytes),
            done: false,
            reads: 0,
            progressed: false,
        }
    }

    pub open spec fn well_formed(self) -> bool {
        self.capture.well_formed() && self.reads <= MAX_STREAM_READS_PER_TICK
    }

    /// A new turn.
    pub open spec fn turn(self) -> StreamView {
        StreamView { reads: 0, progressed: false, ..self }
    }

    /// Whether the turn has another read.
    pub open spec fn wants_read(self) -> bool {
        !self.done && self.reads < MAX_STREAM_READS_PER_TICK
    }

    /// The stream behind one read. An interrupted read counts as one; a read
    /// that would block ends the turn; a failed one ends the stream.
    pub open spec fn after_read(self, read: ReadView) -> StreamView {
        match read {
            ReadView::Bytes(bytes) => if bytes.len() == 0 {
                StreamView {
                    done: true,
                    progressed: true,
                    reads: MAX_STREAM_READS_PER_TICK as nat,
                    ..self
                }
            } else {
                StreamView {
                    capture: self.capture.pushed(bytes),
                    progressed: true,
                    reads: self.reads + 1,
                    ..self
                }
            },
            ReadView::End => StreamView {
                done: true,
                progressed: true,
                reads: MAX_STREAM_READS_PER_TICK as nat,
                ..self
            },
            ReadView::Failed(source) => if source.kind == ErrorKind::Interrupted {
                StreamView { reads: self.reads + 1, ..self }
            } else if source.kind == ErrorKind::WouldBlock {
                StreamView { reads: MAX_STREAM_READS_PER_TICK as nat, ..self }
            } else {
                StreamView {
                    done: true,
                    progressed: true,
                    reads: MAX_STREAM_READS_PER_TICK as nat,
                    ..self
                }
            },
        }
    }
}

/// The failure that a read reports, where it reports one.
pub open spec fn read_error(read: ReadView) -> Option<IoFailureView> {
    match read {
        ReadView::Failed(source) => if source.kind == ErrorKind::Interrupted || source.kind
            == ErrorKind::WouldBlock {
            None
        } else {
            Some(source)
        },
        _ => None,
    }
}

impl OutputStream {
    /// A stream before its first read.
    pub fn new(max_bytes: usize) -> (stream: OutputStream)
        ensures
            stream@ == StreamView::initial(max_bytes as nat),
            stream@.well_formed(),
    {
        OutputStream {
            capture: CapturedStream::new(max_bytes),
            done: false,
            reads: 0,
            progressed: false,
        }
    }

    /// Begins a new turn.
    pub fn begin_turn(&mut self)
        requires
            old(self)@.well_formed(),
        ensures
            final(self)@ == old(self)@.turn(),
            final(self)@.well_formed(),
    {
        self.reads = 0;
        self.progressed = false;
    }

    /// Whether the turn has another read.
    pub fn wants_read(&self) -> (result: bool)
        ensures
            result == self@.wants_read(),
    {
        !self.done && self.reads < MAX_STREAM_READS_PER_TICK
    }

    /// Whether its end has been seen.
    pub fn is_done(&self) -> (result: bool)
        ensures
            result == self@.done,
    {
        self.done
    }

    /// Whether a read of this turn brought something.
    pub fn progressed(&self) -> (result: bool)
        ensures
            result == self@.progressed,
    {
        self.progressed
    }

    /// What was captured.
    pub fn capture(&self) -> (capture: &CapturedStream)
        ensures
            capture@ == self@.capture,
    {
        &self.capture
    }

    /// Takes what one read gave, and hands back the failure that it reports.
    pub fn after_read(&mut self, read: StreamRead) -> (error: Option<IoFailure>)
        requires
            old(self)@.well_formed(),
            old(self)@.wants_read(),
        ensures
            final(self)@ == old(self)@.after_read(read@),
            final(self)@.well_formed(),
            match error {
                Some(source) => read_error(read@) == Some(source@),
                None => read_error(read@) is None,
            },
    {
        match read {
            StreamRead::Bytes(bytes) => {
                if bytes.len() == 0 {
                    self.end_turn_done();
                } else {
                    self.capture.push(bytes.as_slice());
                    self.progressed = true;
                    self.reads = self.reads + 1;
                }
                None
            },
            StreamRead::End => {
                self.end_turn_done();
                None
            },
            StreamRead::Failed(source) => if source.kind == ErrorKind::Interrupted {
                self.reads = self.reads + 1;
                None
            } else if source.kind == ErrorKind::WouldBlock {
                self.reads = MAX_STREAM_READS_PER_TICK;
                None
            } else {
                self.end_turn_done();
                Some(source)
            },
        }
    }

    fn end_turn_done(&mut self)
        ensures
            final(self)@ == (StreamView {
                done: true,
                progressed: true,
                reads: MAX_STREAM_READS_PER_TICK as nat,
                ..old(self)@
            }),
    {
        self.done = true;
        self.progressed = true;
        self.reads = MAX_STREAM_READS_PER_TICK;
    }
}

/// One of the two streams of a command.
#[derive(Clone, Copy, Debug, PartialEq, Eq, Structural)]
pub enum Channel {
    Stdout,
    Stderr,
}

/// The two streams of a command, and the first failure to read one of them.
pub struct OutputPair {
    stdout: OutputStream,
    stderr: OutputStream,
    error: Option<IoFailure>,
}

/// The mathematical value of an [`OutputPair`].
pub struct PairView {
    pub stdout: StreamView,
    pub stderr: StreamView,
    pub error: Option<IoFailureView>,
}

impl View for OutputPair {
    type V = PairView;

    closed spec fn view(&self) -> PairView {
        PairView {
            stdout: self.stdout@,
            stderr: self.stderr@,
            error: match self.error {
                Some(source) => Some(source@),
                None => None,
            },
        }
    }
}

impl PairView {
    /// Two streams before their first read.
    pub open spec fn initial(stdout_bytes: nat, stderr_bytes: nat) -> PairView {
        PairView {
            stdout: StreamView::initial(stdout_bytes),
            stderr: StreamView::initial(stderr_bytes),
            error: None,
        }
    }

    pub open spec fn well_formed(self) -> bool {
        self.stdout.well_formed() && self.stderr.well_formed()
    }

    /// Both streams at the beginning of a turn.
    pub open spec fn turn(self) -> PairView {
        PairView { stdout: self.stdout.turn(), stderr: self.stderr.turn(), ..self }
    }

    /// The stream that is read next in this turn, the output before the errors.
    pub open spec fn next_read(self) -> Option<Channel> {
        if self.stdout.wants_read() {
            Some(Channel::Stdout)
        } else if self.stderr.wants_read() {
            Some(Channel::Stderr)
        } else {
            None
        }
    }

    /// Both streams behind one read.
    pub open spec fn after_read(self, read: ReadView) -> PairView {
        let error = match self.error {
            Some(first) => Some(first),
            None => read_error(read),
        };
        match self.next_read() {
            Some(Channel::Stdout) => PairView {
                stdout: self.stdout.after_read(read),
                error,
                ..self
            },
            Some(Channel::Stderr) => PairView {
                stderr: self.stderr.after_read(read),
                error,
                ..self
            },
            None => self,
        }
    }

    /// Whether both ends have been seen.
    pub open spec fn done(self) -> bool {
        self.stdout.done && self.stderr.done
    }

    /// Whether the turn brought something.
    pub open spec fn progressed(self) -> bool {
        self.stdout.progressed || self.stderr.progressed
    }
}

impl OutputPair {
    /// Two streams before their first read.
    pub fn new(stdout_bytes: usize, stderr_bytes: usize) -> (pair: OutputPair)
        ensures
            pair@.well_formed(),
            pair@ == PairView::initial(stdout_bytes as nat, stderr_bytes as nat),
    {
        OutputPair {
            stdout: OutputStream::new(stdout_bytes),
            stderr: OutputStream::new(stderr_bytes),
            error: None,
        }
    }

    /// Begins a new turn.
    pub fn begin_turn(&mut self)
        requires
            old(self)@.well_formed(),
        ensures
            final(self)@ == old(self)@.turn(),
            final(self)@.well_formed(),
    {
        self.stdout.begin_turn();
        self.stderr.begin_turn();
    }

    /// The stream that is read next in this turn.
    pub fn next_read(&self) -> (channel: Option<Channel>)
        ensures
            channel == self@.next_read(),
    {
        if self.stdout.wants_read() {
            Some(Channel::Stdout)
        } else if self.stderr.wants_read() {
            Some(Channel::Stderr)
        } else {
            None
        }
    }

    /// Takes what the next read gave.
    pub fn after_read(&mut self, read: StreamRead)
        requires
            old(self)@.well_formed(),
        ensures
            final(self)@ == old(self)@.after_read(read@),
            final(self)@.well_formed(),
    {
        let found = if self.stdout.wants_read() {
            self.stdout.after_read(read)
        } else if self.stderr.wants_read() {
            self.stderr.after_read(read)
        } else {
            return;
        };
        if self.error.is_none() {
            self.error = found;
        }
    }

    /// Whether both ends have been seen.
    pub fn done(&self) -> (result: bool)
        ensures
            result == self@.done(),
    {
        self.stdout.is_done() && self.stderr.is_done()
    }

    /// Whether the turn brought something.
    pub fn progressed(&self) -> (result: bool)
        ensures
            result == self@.progressed(),
    {
        self.stdout.progressed() || self.stderr.progressed()
    }

    /// Whether reading failed.
    pub fn has_error(&self) -> (result: bool)
        ensures
            result == (self@.error is Some),
    {
        self.error.is_some()
    }

    /// The output.
    pub fn stdout(&self) -> (stream: &OutputStream)
        ensures
            stream@ == self@.stdout,
    {
        &self.stdout
    }

    /// The errors.
    pub fn stderr(&self) -> (stream: &OutputStream)
        ensures
            stream@ == self@.stderr,
    {
        &self.stderr
    }

    /// The first failure to read, taken out.
    pub fn take_error(self) -> (error: Option<IoFailure>)
        ensures
            match error {
                Some(source) => self@.error == Some(source@),
                None => self@.error is None,
            },
    {
        self.error
    }
}

} // verus!
