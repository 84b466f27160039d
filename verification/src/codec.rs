//! The stream framing codec.
//!
//! A frame travels on the wire as `varint(body_length) || body`, where the
//! length prefix is an unsigned LEB128 varint.  [`FlipperCodec`] turns an
//! unbounded byte stream into discrete frames and back: `decode` accumulates
//! arriving chunks in an internal buffer and drains one complete frame per
//! call, `encode` prepends the length prefix.
//!
//! Frame bodies never exceed [`MAX_FRAME_LENGTH`], so a legal length prefix
//! fits in two bytes.  The decoder still reads prefixes of up to three
//! bytes, enough for any length below `0x200000`, and treats a longer
//! prefix as a protocol violation rather than buffering it forever.

use vstd::arithmetic::div_mod::{lemma_div_denominator, lemma_fundamental_div_mod};
use vstd::prelude::*;

use crate::consts::MAX_FRAME_LENGTH;
use crate::error::FlipperError;

verus! {

// ---------------------------------------------------------------------
// Wire format, as mathematics.
// ---------------------------------------------------------------------

/// The unsigned LEB128 encoding of `n`: seven value bits per byte, least
/// significant first; every byte but the last has its high bit set.
pub open spec fn spec_varint(n: nat) -> Seq<u8>
    decreases n,
{
    if n < 0x80 {
        seq![n as u8]
    } else {
        seq![(0x80 + n % 0x80) as u8] + spec_varint(n / 0x80)
    }
}

/// A full wire frame: length prefix, then body.
pub open spec fn spec_frame(body: Seq<u8>) -> Seq<u8> {
    spec_varint(body.len()) + body
}

/// The low seven bits of a header byte, the part that carries the length.
pub open spec fn spec_low7(b: u8) -> nat {
    (b % 0x80) as nat
}

/// Index of the byte that terminates the length prefix at the head of `b`,
/// if one stands among the first three bytes.
pub open spec fn spec_header_term(b: Seq<u8>) -> Option<int> {
    if b.len() >= 1 && b[0] < 0x80 {
        Some(0int)
    } else if b.len() >= 2 && b[1] < 0x80 {
        Some(1int)
    } else if b.len() >= 3 && b[2] < 0x80 {
        Some(2int)
    } else {
        None
    }
}

/// The length carried by a prefix whose terminating byte stands at `t`.
pub open spec fn spec_header_value(b: Seq<u8>, t: int) -> nat {
    if t == 0 {
        spec_low7(b[0])
    } else if t == 1 {
        spec_low7(b[0]) + spec_low7(b[1]) * 0x80
    } else {
        spec_low7(b[0]) + spec_low7(b[1]) * 0x80 + spec_low7(b[2]) * 0x4000
    }
}

/// The least length a canonical completion of an unterminated three-byte
/// prefix could carry: its seven-bit digits so far, plus the smallest
/// nonzero contribution of a fourth byte.
pub open spec fn spec_overlong_min(b: Seq<u8>) -> nat {
    spec_low7(b[0]) + spec_low7(b[1]) * 0x80 + spec_low7(b[2]) * 0x4000 + 0x200000
}

/// Whether one decode call over accumulated bytes `b` reports a protocol
/// violation: a complete prefix carrying a length over the maximum, or a
/// prefix that is still unterminated after three bytes.
pub open spec fn spec_step_fails(b: Seq<u8>) -> bool {
    match spec_header_term(b) {
        Some(t) => spec_header_value(b, t) > MAX_FRAME_LENGTH,
        None => b.len() >= 3,
    }
}

/// The length a failing decode call reports: the decoded length when the
/// prefix terminated, otherwise the least length a canonical completion
/// could carry.
pub open spec fn spec_step_error_len(b: Seq<u8>) -> nat {
    match spec_header_term(b) {
        Some(t) => spec_header_value(b, t),
        None => spec_overlong_min(b),
    }
}

/// The frame body one decode call over accumulated bytes `b` yields, if a
/// legal header and its full body have arrived.
pub open spec fn spec_step_yields(b: Seq<u8>) -> Option<Seq<u8>> {
    match spec_header_term(b) {
        Some(t) => {
            let v = spec_header_value(b, t);
            if v <= MAX_FRAME_LENGTH && b.len() >= t + 1 + v {
                Some(b.subrange(t + 1, t + 1 + v))
            } else {
                None
            }
        },
        None => None,
    }
}

/// What stays buffered after one decode call over accumulated bytes `b`:
/// everything, unless a frame was drained.
pub open spec fn spec_step_rest(b: Seq<u8>) -> Seq<u8> {
    match spec_header_term(b) {
        Some(t) => {
            let v = spec_header_value(b, t);
            if v <= MAX_FRAME_LENGTH && b.len() >= t + 1 + v {
                b.skip(t + 1 + v)
            } else {
                b
            }
        },
        None => b,
    }
}

/// The full contract of one decode call: `b` is the old buffer with the
/// new chunk appended, `r` the call's result, `after` the new buffer.
pub open spec fn spec_decode_post(
    b: Seq<u8>,
    r: Result<Option<Vec<u8>>, FlipperError>,
    after: Seq<u8>,
) -> bool {
    &&& after == spec_step_rest(b)
    &&& match spec_step_yields(b) {
        Some(f) => r matches Ok(Some(v)) && v@ == f,
        None => if spec_step_fails(b) {
            r matches Err(FlipperError::DataTooLarge(l)) && l == spec_step_error_len(b)
        } else {
            r matches Ok(None)
        },
    }
}

// ---------------------------------------------------------------------
// The codec.
// ---------------------------------------------------------------------

/// Stateful framing codec: one retained partial-decode buffer, exclusively
/// owned, plus a stateless encoder.
pub struct FlipperCodec {
    /// Bytes received but not yet drained as a frame.
    pub buf: Vec<u8>,
}

impl View for FlipperCodec {
    type V = Seq<u8>;

    open spec fn view(&self) -> Seq<u8> {
        self.buf@
    }
}

impl Default for FlipperCodec {
    /// A codec with an empty decode buffer.
    fn default() -> (r: Self)
        ensures
            r@ == Seq::<u8>::empty(),
    {
        FlipperCodec { buf: Vec::new() }
    }
}

impl FlipperCodec {
    /// Append `chunk` to the decode buffer and drain at most one complete
    /// frame from its head.
    ///
    /// Returns `Ok(None)` while the buffered bytes do not yet hold a full
    /// header and body, `Ok(Some(body))` once they do, and
    /// `Err(DataTooLarge)` when the header announces a body over
    /// [`MAX_FRAME_LENGTH`] or does not terminate within three bytes.  On
    /// an error the buffer keeps everything: the stream is in a
    /// protocol-violating state and must not simply be retried.
    pub fn decode(&mut self, chunk: &[u8]) -> (r: Result<Option<Vec<u8>>, FlipperError>)
        ensures
            spec_decode_post(old(self)@ + chunk@, r, final(self)@),
    {
        let ghost b: Seq<u8> = old(self)@ + chunk@;

        // Take the whole chunk into the buffer.
        let mut k: usize = 0;
        while k < chunk.len()
            invariant
                k <= chunk.len(),
                self.buf@ == old(self)@ + chunk@.subrange(0, k as int),
            decreases chunk.len() - k,
        {
            self.buf.push(chunk[k]);
            k = k + 1;
            proof {
                assert(chunk@.subrange(0, k as int) =~= chunk@.subrange(0, k as int - 1).push(
                    chunk@[k as int - 1],
                ));
            }
        }
        proof {
            assert(chunk@.subrange(0, chunk@.len() as int) =~= chunk@);
            assert(self.buf@ =~= b);
        }

        let blen = self.buf.len();

        // Find the byte that terminates the length prefix, if any of the
        // first three bytes does.
        let term: Option<usize> = if blen >= 1 && self.buf[0] < 0x80 {
            Some(0)
        } else if blen >= 2 && self.buf[1] < 0x80 {
            Some(1)
        } else if blen >= 3 && self.buf[2] < 0x80 {
            Some(2)
        } else {
            None
        };

        match term {
            None => {
                if blen < 3 {
                    // The prefix may still terminate: wait for more bytes.
                    Ok(None)
                } else {
                    // Unterminated after three bytes: any canonical
                    // completion would carry a length past the maximum.
                    let v: usize = (self.buf[0] % 0x80) as usize + (self.buf[1] % 0x80) as usize
                        * 0x80 + (self.buf[2] % 0x80) as usize * 0x4000 + 0x200000;
                    assert(v == spec_overlong_min(b));
                    Err(FlipperError::DataTooLarge(v))
                }
            },
            Some(t) => {
                assert(spec_header_term(b) == Some(t as int));
                let v: usize = if t == 0 {
                    self.buf[0] as usize
                } else if t == 1 {
                    (self.buf[0] % 0x80) as usize + self.buf[1] as usize * 0x80
                } else {
                    (self.buf[0] % 0x80) as usize + (self.buf[1] % 0x80) as usize * 0x80
                        + self.buf[2] as usize * 0x4000
                };
                assert(v == spec_header_value(b, t as int));

                if v > MAX_FRAME_LENGTH {
                    Err(FlipperError::DataTooLarge(v))
                } else if blen - (t + 1) >= v {
                    // Header and body are fully buffered: drain exactly
                    // that span and hand the body out.
                    let consumed = t + 1;
                    let mut body: Vec<u8> = Vec::new();
                    let mut i: usize = consumed;
                    while i < consumed + v
                        invariant
                            self.buf@ == b,
                            consumed == t + 1,
                            t < 3,
                            v <= MAX_FRAME_LENGTH,
                            consumed + v <= b.len(),
                            consumed <= i <= consumed + v,
                            body@ == b.subrange(consumed as int, i as int),
                        decreases consumed + v - i,
                    {
                        body.push(self.buf[i]);
                        i = i + 1;
                        proof {
                            assert(b.subrange(consumed as int, i as int) =~= b.subrange(
                                consumed as int,
                                i as int - 1,
                            ).push(b[i as int - 1]));
                        }
                    }

                    let mut rest: Vec<u8> = Vec::new();
                    let mut j: usize = consumed + v;
                    while j < blen
                        invariant
                            self.buf@ == b,
                            blen == b.len(),
                            consumed + v <= j <= blen,
                            rest@ == b.subrange((consumed + v) as int, j as int),
                        decreases blen - j,
                    {
                        rest.push(self.buf[j]);
                        j = j + 1;
                        proof {
                            assert(b.subrange((consumed + v) as int, j as int) =~= b.subrange(
                                (consumed + v) as int,
                                j as int - 1,
                            ).push(b[j as int - 1]));
                        }
                    }
                    self.buf = rest;
                    proof {
                        assert(self.buf@ =~= b.skip(t as int + 1 + v as int));
                    }
                    Ok(Some(body))
                } else {
                    // The header is legal but the body has not fully
                    // arrived: keep everything buffered.
                    Ok(None)
                }
            },
        }
    }

    /// Encode `data` as one wire frame: its length as a varint, then the
    /// bytes themselves.  Fails with `DataTooLarge` when the body exceeds
    /// [`MAX_FRAME_LENGTH`].  Encoding never touches the decode buffer.
    pub fn encode(&self, data: &[u8]) -> (r: Result<Vec<u8>, FlipperError>)
        ensures
            data@.len() > MAX_FRAME_LENGTH ==> r == Err::<Vec<u8>, FlipperError>(
                FlipperError::DataTooLarge(data@.len() as usize),
            ),
            data@.len() <= MAX_FRAME_LENGTH ==> (r matches Ok(w) && w@ == spec_frame(data@)),
    {
        let n = data.len();
        if n > MAX_FRAME_LENGTH {
            return Err(FlipperError::DataTooLarge(n));
        }

        let mut out: Vec<u8> = Vec::new();
        if n < 0x80 {
            out.push(n as u8);
            assert(out@ =~= spec_varint(n as nat));
        } else {
            out.push((0x80 + n % 0x80) as u8);
            out.push((n / 0x80) as u8);
            proof {
                lemma_varint_two_bytes(n as nat);
                assert(out@ =~= spec_varint(n as nat));
            }
        }

        let ghost header: Seq<u8> = out@;
        let mut k: usize = 0;
        while k < data.len()
            invariant
                k <= data.len(),
                out@ == header + data@.subrange(0, k as int),
            decreases data.len() - k,
        {
            out.push(data[k]);
            k = k + 1;
            proof {
                assert(data@.subrange(0, k as int) =~= data@.subrange(0, k as int - 1).push(
                    data@[k as int - 1],
                ));
            }
        }
        proof {
            assert(data@.subrange(0, data@.len() as int) =~= data@);
            assert(out@ =~= spec_frame(data@));
        }
        Ok(out)
    }
}

// ---------------------------------------------------------------------
// Shape of varints, and what the decoder makes of them.
// ---------------------------------------------------------------------

/// A length below `0x80` encodes as the single byte carrying it.
pub proof fn lemma_varint_one_byte(n: nat)
    requires
        n < 0x80,
    ensures
        spec_varint(n) == seq![n as u8],
{
}

/// A length in `0x80..0x4000` encodes as a continuation byte and a
/// terminating byte.
pub proof fn lemma_varint_two_bytes(n: nat)
    requires
        0x80 <= n < 0x4000,
    ensures
        spec_varint(n) == seq![(0x80 + n % 0x80) as u8, (n / 0x80) as u8],
{
    reveal_with_fuel(spec_varint, 2);
    assert(n / 0x80 < 0x80);
    assert(spec_varint(n) =~= seq![(0x80 + n % 0x80) as u8, (n / 0x80) as u8]);
}

/// A length in `0x4000..0x200000` encodes as two continuation bytes and a
/// terminating byte.
pub proof fn lemma_varint_three_bytes(n: nat)
    requires
        0x4000 <= n < 0x200000,
    ensures
        spec_varint(n) == seq![
            (0x80 + n % 0x80) as u8,
            (0x80 + (n / 0x80) % 0x80) as u8,
            (n / 0x4000) as u8,
        ],
{
    reveal_with_fuel(spec_varint, 3);
    lemma_div_denominator(n as int, 0x80, 0x80);
    assert(n / 0x80 / 0x80 == n / 0x4000);
    assert(0x80 <= n / 0x80 < 0x4000);
    assert(n / 0x4000 < 0x80);
    assert(spec_varint(n) =~= seq![
        (0x80 + n % 0x80) as u8,
        (0x80 + (n / 0x80) % 0x80) as u8,
        (n / 0x4000) as u8,
    ]);
}

/// Parsing a buffer that starts with the varint of `n` finds its
/// terminating byte and recovers exactly `n`.
pub proof fn lemma_header_of_varint(n: nat, tail: Seq<u8>)
    requires
        n < 0x200000,
    ensures
        spec_varint(n).len() == if n < 0x80 {
            1int
        } else if n < 0x4000 {
            2int
        } else {
            3int
        },
        spec_header_term(spec_varint(n) + tail) == Some(spec_varint(n).len() - 1),
        spec_header_value(spec_varint(n) + tail, spec_varint(n).len() - 1) == n,
{
    let b = spec_varint(n) + tail;
    if n < 0x80 {
        lemma_varint_one_byte(n);
        assert(b[0] == n as u8);
    } else if n < 0x4000 {
        lemma_varint_two_bytes(n);
        assert(b[0] == (0x80 + n % 0x80) as u8);
        assert(b[1] == (n / 0x80) as u8);
        assert(spec_low7(b[0]) == n % 0x80);
        lemma_fundamental_div_mod(n as int, 0x80);
        assert(spec_header_value(b, 1) == n);
    } else {
        lemma_varint_three_bytes(n);
        assert(b[0] == (0x80 + n % 0x80) as u8);
        assert(b[1] == (0x80 + (n / 0x80) % 0x80) as u8);
        assert(b[2] == (n / 0x4000) as u8);
        assert(spec_low7(b[0]) == n % 0x80);
        assert(spec_low7(b[1]) == (n / 0x80) % 0x80);
        lemma_fundamental_div_mod(n as int, 0x80);
        lemma_fundamental_div_mod(n as int / 0x80, 0x80);
        lemma_div_denominator(n as int, 0x80, 0x80);
        assert(spec_header_value(b, 2) == n);
    }
}

/// Decoding a buffer that holds one whole frame and then anything at all
/// yields exactly that frame's body and keeps exactly the tail.
pub proof fn lemma_frame_prefix(body: Seq<u8>, tail: Seq<u8>)
    requires
        body.len() <= MAX_FRAME_LENGTH,
    ensures
        !spec_step_fails(spec_frame(body) + tail),
        spec_step_yields(spec_frame(body) + tail) == Some(body),
        spec_step_rest(spec_frame(body) + tail) == tail,
{
    let n = body.len();
    let b = spec_frame(body) + tail;
    assert(b =~= spec_varint(n) + (body + tail));
    lemma_header_of_varint(n, body + tail);
    let hl = spec_varint(n).len() as int;
    assert(spec_header_term(b) == Some(hl - 1));
    assert(spec_header_value(b, hl - 1) == n);
    assert(b.len() == hl + n + tail.len());
    assert(b.subrange(hl, hl + n as int) =~= body);
    assert(b.skip(hl + n as int) =~= tail);
}

/// Round trip: for any body of legal length, decoding the encoded frame as
/// a single chunk from an empty buffer yields exactly the body and leaves
/// nothing buffered.
pub proof fn lemma_round_trip(body: Seq<u8>)
    requires
        body.len() <= MAX_FRAME_LENGTH,
    ensures
        !spec_step_fails(spec_frame(body)),
        spec_step_yields(spec_frame(body)) == Some(body),
        spec_step_rest(spec_frame(body)) == Seq::<u8>::empty(),
{
    lemma_frame_prefix(body, Seq::<u8>::empty());
    assert(spec_frame(body) + Seq::<u8>::empty() =~= spec_frame(body));
}

/// Incremental delivery: while only a proper prefix of a frame has
/// arrived, a decode call yields no frame, reports no error, and keeps
/// every byte.  So however the frame is cut into chunks, every call
/// before the last returns nothing and the call whose chunk completes the
/// frame returns exactly the body.
pub proof fn lemma_incremental_delivery(body: Seq<u8>, k: int)
    requires
        body.len() <= MAX_FRAME_LENGTH,
        0 <= k < spec_frame(body).len(),
    ensures
        !spec_step_fails(spec_frame(body).take(k)),
        spec_step_yields(spec_frame(body).take(k)) is None,
        spec_step_rest(spec_frame(body).take(k)) == spec_frame(body).take(k),
{
    let n = body.len();
    let p = spec_frame(body).take(k);
    if n < 0x80 {
        lemma_varint_one_byte(n);
        if k >= 1 {
            assert(p =~= spec_varint(n) + body.take(k - 1));
            lemma_header_of_varint(n, body.take(k - 1));
        }
    } else {
        lemma_varint_two_bytes(n);
        if k >= 2 {
            assert(p =~= spec_varint(n) + body.take(k - 2));
            lemma_header_of_varint(n, body.take(k - 2));
        } else if k == 1 {
            assert(p[0] == (0x80 + n % 0x80) as u8);
            assert(p[0] >= 0x80);
        }
    }
}

/// Multi-frame buffering: two frames arriving in one chunk come out one
/// per decode call, in arrival order, with nothing buffered afterwards
/// and no third result.
pub proof fn lemma_multi_frame(a: Seq<u8>, b: Seq<u8>)
    requires
        a.len() <= MAX_FRAME_LENGTH,
        b.len() <= MAX_FRAME_LENGTH,
    ensures
        spec_step_yields(spec_frame(a) + spec_frame(b)) == Some(a),
        spec_step_rest(spec_frame(a) + spec_frame(b)) == spec_frame(b),
        spec_step_yields(spec_frame(b)) == Some(b),
        spec_step_rest(spec_frame(b)) == Seq::<u8>::empty(),
        spec_step_yields(Seq::<u8>::empty()) is None,
        !spec_step_fails(Seq::<u8>::empty()),
        spec_step_rest(Seq::<u8>::empty()) == Seq::<u8>::empty(),
{
    lemma_frame_prefix(a, spec_frame(b));
    lemma_round_trip(b);
}

/// The concatenation of the wire frames of `bodies`, in order.
pub open spec fn spec_frames(bodies: Seq<Seq<u8>>) -> Seq<u8>
    decreases bodies.len(),
{
    if bodies.len() == 0 {
        Seq::empty()
    } else {
        spec_frame(bodies.first()) + spec_frames(bodies.drop_first())
    }
}

/// Frames come out in the exact order their bytes arrived: with any
/// number of whole frames buffered, a decode call yields the first
/// remaining body and keeps the others, in order.
pub proof fn lemma_fifo_order(bodies: Seq<Seq<u8>>)
    requires
        bodies.len() > 0,
        forall|i: int| 0 <= i < bodies.len() ==> #[trigger] bodies[i].len() <= MAX_FRAME_LENGTH,
    ensures
        !spec_step_fails(spec_frames(bodies)),
        spec_step_yields(spec_frames(bodies)) == Some(bodies.first()),
        spec_step_rest(spec_frames(bodies)) == spec_frames(bodies.drop_first()),
{
    assert(bodies.first().len() <= MAX_FRAME_LENGTH);
    lemma_frame_prefix(bodies.first(), spec_frames(bodies.drop_first()));
}

/// Oversize rejection: a length prefix announcing a body over the maximum
/// makes decode fail with exactly that length, whatever bytes follow the
/// prefix, and nothing is drained.
pub proof fn lemma_oversize_header(n: nat, tail: Seq<u8>)
    requires
        MAX_FRAME_LENGTH < n < 0x200000,
    ensures
        spec_step_fails(spec_varint(n) + tail),
        spec_step_error_len(spec_varint(n) + tail) == n,
        spec_step_yields(spec_varint(n) + tail) is None,
        spec_step_rest(spec_varint(n) + tail) == spec_varint(n) + tail,
{
    lemma_header_of_varint(n, tail);
}

} // verus!
