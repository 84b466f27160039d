//! The serial/UART transport.
//!
//! Before frame I/O can start, the device's interactive shell must be
//! walked through a handshake: drain its output until the prompt appears,
//! send the session-start command, and drain again until the command's
//! echo confirms that the link switched into binary frame mode.
//! [`SerialTransport`] is that state machine.  The surrounding I/O layer
//! owns the port: it opens it at 115200 baud, reads chunks and feeds them
//! to [`SerialTransport::init_feed`], and writes whatever bytes the state
//! machine hands back.
//!
//! Draining uses a rolling window of the last [`PATTERN_WINDOW`] bytes
//! read, so a pattern that straddles two reads is still found while old
//! noise is forgotten.

use vstd::prelude::*;

use crate::codec::FlipperCodec;
use crate::consts::{
    prompt_pattern, session_command, session_echo, spec_prompt_pattern, spec_session_command,
    spec_session_echo, PATTERN_WINDOW,
};
use crate::error::FlipperError;
use crate::transport::{FlipperFrameReceiver, FlipperFrameSender, FlipperTransport};

verus! {

// ---------------------------------------------------------------------
// Pattern search.
// ---------------------------------------------------------------------

/// `needle` occurs in `hay` starting at position `i`.
pub open spec fn spec_matches_at(hay: Seq<u8>, needle: Seq<u8>, i: int) -> bool {
    &&& 0 <= i
    &&& i + needle.len() <= hay.len()
    &&& forall|j: int| 0 <= j < needle.len() ==> hay[i + j] == needle[j]
}

/// `needle` occurs somewhere in `hay`.  An empty needle always does.
pub open spec fn spec_contains_seq(hay: Seq<u8>, needle: Seq<u8>) -> bool {
    exists|i: int| spec_matches_at(hay, needle, i)
}

/// Position of the first occurrence of `needle` in `haystack`, if any.
pub fn find_subsequence(haystack: &[u8], needle: &[u8]) -> (r: Option<usize>)
    ensures
        match r {
            Some(i) => spec_matches_at(haystack@, needle@, i as int) && forall|j: int|
                0 <= j < i ==> !spec_matches_at(haystack@, needle@, j),
            None => !spec_contains_seq(haystack@, needle@),
        },
{
    let n = needle.len();
    if n > haystack.len() {
        return None;
    }
    let mut i: usize = 0;
    while i <= haystack.len() - n
        invariant
            n == needle@.len(),
            n <= haystack@.len(),
            haystack@.len() <= usize::MAX,
            i <= haystack@.len() - n + 1,
            forall|j: int| 0 <= j < i ==> !spec_matches_at(haystack@, needle@, j),
        decreases haystack@.len() - n - i + 1,
    {
        let mut j: usize = 0;
        let mut mismatch = false;
        while j < n && !mismatch
            invariant
                n == needle@.len(),
                n <= haystack@.len(),
                haystack@.len() <= usize::MAX,
                i + n <= haystack@.len(),
                j <= n,
                !mismatch ==> forall|m: int| 0 <= m < j ==> haystack@[i + m] == needle@[m],
                mismatch ==> !spec_matches_at(haystack@, needle@, i as int),
            decreases n - j + (if mismatch { 0int } else { 1 }),
        {
            if haystack[i + j] != needle[j] {
                mismatch = true;
            } else {
                j = j + 1;
            }
        }
        if !mismatch {
            return Some(i);
        }
        i = i + 1;
    }
    proof {
        assert forall|p: int| !spec_matches_at(haystack@, needle@, p) by {
            if 0 <= p <= haystack@.len() - n {
                assert(!spec_matches_at(haystack@, needle@, p));
            }
        }
    }
    None
}

// ---------------------------------------------------------------------
// The rolling handshake window.
// ---------------------------------------------------------------------

/// The last [`PATTERN_WINDOW`] bytes of `s`; all of `s` while it is
/// shorter than that.
pub open spec fn spec_window(s: Seq<u8>) -> Seq<u8> {
    if s.len() <= PATTERN_WINDOW {
        s
    } else {
        s.skip(s.len() - PATTERN_WINDOW)
    }
}

/// Append `chunk` to the window and forget all but its last
/// [`PATTERN_WINDOW`] bytes.
fn window_feed(window: &mut Vec<u8>, chunk: &[u8])
    ensures
        final(window)@ == spec_window(old(window)@ + chunk@),
{
    let mut k: usize = 0;
    while k < chunk.len()
        invariant
            k <= chunk.len(),
            window@ == old(window)@ + chunk@.subrange(0, k as int),
        decreases chunk.len() - k,
    {
        window.push(chunk[k]);
        k = k + 1;
        proof {
            assert(chunk@.subrange(0, k as int) =~= chunk@.subrange(0, k as int - 1).push(
                chunk@[k as int - 1],
            ));
        }
    }
    proof {
        assert(chunk@.subrange(0, chunk@.len() as int) =~= chunk@);
    }
    if window.len() > PATTERN_WINDOW {
        let tail = window.split_off(window.len() - PATTERN_WINDOW);
        *window = tail;
    }
    proof {
        assert(window@ =~= spec_window(old(window)@ + chunk@));
    }
}

/// Feeding the window in two goes keeps exactly the bytes that feeding it
/// in one go would keep: the window always holds the last
/// [`PATTERN_WINDOW`] bytes of everything read so far, however the reads
/// were chunked.
pub proof fn lemma_window_accumulates(x: Seq<u8>, y: Seq<u8>)
    ensures
        spec_window(spec_window(x) + y) == spec_window(x + y),
{
    assert(spec_window(spec_window(x) + y) =~= spec_window(x + y));
}

/// The concatenation of `chunks`, in order.
pub open spec fn spec_concat(chunks: Seq<Seq<u8>>) -> Seq<u8>
    decreases chunks.len(),
{
    if chunks.len() == 0 {
        Seq::empty()
    } else {
        spec_concat(chunks.drop_last()) + chunks.last()
    }
}

/// The rolling window after feeding `chunks` one read at a time,
/// starting empty.
pub open spec fn spec_window_after(chunks: Seq<Seq<u8>>) -> Seq<u8>
    decreases chunks.len(),
{
    if chunks.len() == 0 {
        Seq::empty()
    } else {
        spec_window(spec_window_after(chunks.drop_last()) + chunks.last())
    }
}

/// However a byte stream is cut into reads, the window after feeding
/// them one at a time is the window of the whole stream — so whether a
/// drain fires, and on which read, depends only on the bytes themselves,
/// never on how they were chunked.
pub proof fn lemma_window_chunking_invariant(chunks: Seq<Seq<u8>>)
    ensures
        spec_window_after(chunks) == spec_window(spec_concat(chunks)),
    decreases chunks.len(),
{
    if chunks.len() == 0 {
    } else {
        let pre = chunks.drop_last();
        lemma_window_chunking_invariant(pre);
        lemma_window_accumulates(spec_concat(pre), chunks.last());
    }
}

/// The window invents nothing: a pattern found in it occurred in the
/// bytes read so far.
pub proof fn lemma_window_sound(s: Seq<u8>, pat: Seq<u8>)
    requires
        spec_contains_seq(spec_window(s), pat),
    ensures
        spec_contains_seq(s, pat),
{
    let i = choose|i: int| spec_matches_at(spec_window(s), pat, i);
    if s.len() <= PATTERN_WINDOW {
        assert(spec_matches_at(s, pat, i));
    } else {
        assert(spec_matches_at(s, pat, i + s.len() - PATTERN_WINDOW));
    }
}

/// The window misses nothing that fits in it: a pattern no longer than
/// the window that the bytes read so far end with stands in the window.
pub proof fn lemma_window_complete(s: Seq<u8>, pat: Seq<u8>)
    requires
        pat.len() <= PATTERN_WINDOW,
        pat.len() <= s.len(),
        s.skip(s.len() - pat.len()) == pat,
    ensures
        spec_contains_seq(spec_window(s), pat),
{
    let w = spec_window(s);
    let i = w.len() - pat.len();
    assert forall|j: int| 0 <= j < pat.len() implies w[i + j] == pat[j] by {
        assert(pat[j] == s.skip(s.len() - pat.len())[j]);
    }
    assert(spec_matches_at(w, pat, i));
}

// ---------------------------------------------------------------------
// The transport state machine.
// ---------------------------------------------------------------------

/// Where the serial session stands.
#[derive(Clone, Copy, Debug, PartialEq, Eq, Structural)]
pub enum SessionState {
    /// The port has not been touched yet.
    Uninitialized,
    /// Draining shell output until the prompt appears.
    AwaitingPrompt,
    /// The session command was handed out; draining until its echo
    /// appears.
    AwaitingEcho,
    /// Binary frame mode: frame I/O may start.
    Ready,
}

/// What the surrounding I/O layer must do next during the handshake.
pub enum InitStep {
    /// Nothing decisive seen: read more bytes and feed them back in.
    Pending,
    /// The prompt appeared: write these bytes to the port, then keep
    /// reading for the echo.
    SendCommand(Vec<u8>),
    /// The echo appeared: the link is in frame mode.
    Complete,
}

/// Serial transport for the Flipper Zero: the handshake and framing state
/// machine for one tty connection.
pub struct SerialTransport {
    /// Path of the serial device, for example `/dev/ttyACM0` or `COM1`.
    pub tty: String,
    /// Handshake and session progress.
    pub state: SessionState,
    /// Rolling pattern window used while draining for a pattern.
    pub window: Vec<u8>,
    /// Framing state for received bytes.
    pub codec: FlipperCodec,
}

impl SerialTransport {
    /// A transport for the given tty path, not yet initialized.
    pub fn new(tty: &str) -> (r: Self)
        ensures
            r.tty@ == tty@,
            r.state is Uninitialized,
            r.window@ == Seq::<u8>::empty(),
            r.codec@ == Seq::<u8>::empty(),
    {
        SerialTransport {
            tty: tty.to_owned(),
            state: SessionState::Uninitialized,
            window: Vec::new(),
            codec: FlipperCodec::default(),
        }
    }

    /// Record that the port has been opened and start draining for the
    /// prompt.  Initialization is the only way towards frame mode.
    pub fn begin_init(&mut self)
        requires
            old(self).state is Uninitialized,
        ensures
            final(self).state is AwaitingPrompt,
            final(self).window@ == Seq::<u8>::empty(),
            final(self).tty@ == old(self).tty@,
            final(self).codec@ == old(self).codec@,
    {
        self.state = SessionState::AwaitingPrompt;
        self.window = Vec::new();
    }

    /// Feed bytes read from the port while handshaking.
    ///
    /// While awaiting the prompt: once the rolling window holds the
    /// prompt, hands back the session command to write and starts
    /// draining for the echo with a fresh window.  While awaiting the
    /// echo: once the window holds the echo, the link is ready for frame
    /// I/O.  Otherwise the caller must read on.
    pub fn init_feed(&mut self, chunk: &[u8]) -> (r: InitStep)
        requires
            old(self).state is AwaitingPrompt || old(self).state is AwaitingEcho,
        ensures
            final(self).tty@ == old(self).tty@,
            final(self).codec@ == old(self).codec@,
            ({
                let w = spec_window(old(self).window@ + chunk@);
                if old(self).state is AwaitingPrompt {
                    if spec_contains_seq(w, spec_prompt_pattern()) {
                        &&& r matches InitStep::SendCommand(c) && c@ == spec_session_command()
                        &&& final(self).state is AwaitingEcho
                        &&& final(self).window@ == Seq::<u8>::empty()
                    } else {
                        &&& r is Pending
                        &&& final(self).state is AwaitingPrompt
                        &&& final(self).window@ == w
                    }
                } else {
                    if spec_contains_seq(w, spec_session_echo()) {
                        &&& r is Complete
                        &&& final(self).state is Ready
                        &&& final(self).window@ == Seq::<u8>::empty()
                    } else {
                        &&& r is Pending
                        &&& final(self).state is AwaitingEcho
                        &&& final(self).window@ == w
                    }
                }
            }),
    {
        window_feed(&mut self.window, chunk);
        match self.state {
            SessionState::AwaitingPrompt => {
                let pat = prompt_pattern();
                if find_subsequence(self.window.as_slice(), pat.as_slice()).is_some() {
                    self.state = SessionState::AwaitingEcho;
                    self.window = Vec::new();
                    InitStep::SendCommand(session_command())
                } else {
                    InitStep::Pending
                }
            },
            SessionState::AwaitingEcho => {
                let pat = session_echo();
                if find_subsequence(self.window.as_slice(), pat.as_slice()).is_some() {
                    self.state = SessionState::Ready;
                    self.window = Vec::new();
                    InitStep::Complete
                } else {
                    InitStep::Pending
                }
            },
            SessionState::Uninitialized => unreached(),
            SessionState::Ready => unreached(),
        }
    }
}

impl FlipperFrameReceiver for SerialTransport {
    open spec fn rx_ready(&self) -> bool {
        self.state is Ready
    }

    open spec fn rx_buffer(&self) -> Seq<u8> {
        self.codec@
    }

    fn read_frame(&mut self, chunk: &[u8]) -> (r: Result<Option<Vec<u8>>, FlipperError>) {
        self.codec.decode(chunk)
    }
}

impl FlipperFrameSender for SerialTransport {
    open spec fn tx_ready(&self) -> bool {
        self.state is Ready
    }

    fn write_frame(&mut self, data: &[u8]) -> (r: Result<Vec<u8>, FlipperError>) {
        self.codec.encode(data)
    }
}

// ---------------------------------------------------------------------
// The split halves.
// ---------------------------------------------------------------------

/// The sending half of a split serial connection.  It owns its framing
/// state; the write half of the port lives with the I/O layer that
/// drives it.
pub struct SerialFrameSender {
    /// Framing state of this half, independent of the receiver's.
    pub codec: FlipperCodec,
}

impl SerialFrameSender {
    /// A fresh sender half.
    pub fn new() -> (r: Self)
        ensures
            r.codec@ == Seq::<u8>::empty(),
    {
        SerialFrameSender { codec: FlipperCodec::default() }
    }
}

impl FlipperFrameSender for SerialFrameSender {
    open spec fn tx_ready(&self) -> bool {
        true
    }

    fn write_frame(&mut self, data: &[u8]) -> (r: Result<Vec<u8>, FlipperError>) {
        self.codec.encode(data)
    }
}

/// The receiving half of a split serial connection.  It owns its framing
/// state; the read half of the port lives with the I/O layer that feeds
/// it.
pub struct SerialFrameReceiver {
    /// Framing state of this half, independent of the sender's.
    pub codec: FlipperCodec,
}

impl SerialFrameReceiver {
    /// A fresh receiver half.
    pub fn new() -> (r: Self)
        ensures
            r.codec@ == Seq::<u8>::empty(),
    {
        SerialFrameReceiver { codec: FlipperCodec::default() }
    }
}

impl FlipperFrameReceiver for SerialFrameReceiver {
    open spec fn rx_ready(&self) -> bool {
        true
    }

    open spec fn rx_buffer(&self) -> Seq<u8> {
        self.codec@
    }

    fn read_frame(&mut self, chunk: &[u8]) -> (r: Result<Option<Vec<u8>>, FlipperError>) {
        self.codec.decode(chunk)
    }
}

impl FlipperTransport for SerialTransport {
    type Receiver = SerialFrameReceiver;

    type Sender = SerialFrameSender;

    open spec fn ready(&self) -> bool {
        self.state is Ready
    }

    /// Split the connection into its two halves.  Each half gets its own
    /// fresh framing state, since read and write framing are independent;
    /// the transport's own partial-decode buffer is discarded with it.
    fn split_stream(self) -> (r: (SerialFrameReceiver, SerialFrameSender)) {
        (SerialFrameReceiver::new(), SerialFrameSender::new())
    }
}

} // verus!
