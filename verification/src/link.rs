//! The serial control link between the host and the motor controller.
//!
//! Frames travel COBS-encoded and separated by zero bytes. A control frame
//! carries four big-endian `i32`s: the chassis velocity `x`, `y`, `w` and the
//! dribbler speed. The controller answers each one with its odometry, three
//! big-endian `i32`s, COBS-encoded into a fixed-size packet.
use vstd::prelude::*;

use cobs::CobsDecoderOwned;

verus! {

/// Declares the streaming COBS decoder of the `cobs` crate, which owns the
/// buffer it decodes into.
#[verifier::external_type_specification]
#[verifier::external_body]
pub struct ExCobsDecoderOwned(CobsDecoderOwned);

/// The decode buffer of a `cobs::CobsDecoderOwned`: a decoded frame of `n`
/// bytes occupies its first `n` bytes.
pub uninterp spec fn cobs_decoder_buffer(d: CobsDecoderOwned) -> Seq<u8>;

/// What `cobs::CobsDecoderOwned::feed` reports when decoder `d` is fed `byte`:
/// a function of the decoder's state (its position in the frame and its write
/// index) and the byte.
pub uninterp spec fn cobs_feed_outcome(d: CobsDecoderOwned, byte: u8) -> FeedOutcome;

/// The decoder `cobs::CobsDecoderOwned::feed` leaves behind when decoder `d`
/// is fed `byte`: a function of the decoder and the byte.
pub uninterp spec fn cobs_fed(d: CobsDecoderOwned, byte: u8) -> CobsDecoderOwned;

/// The decoder `cobs::CobsDecoderOwned::new(capacity)` returns: idle, with
/// its write index at the start of its buffer.
pub uninterp spec fn cobs_fresh_decoder(capacity: usize) -> CobsDecoderOwned;

/// The decoder after being fed `bytes`, one at a time, in order.
pub open spec fn feed_all(d: CobsDecoderOwned, bytes: Seq<u8>) -> CobsDecoderOwned
    decreases bytes.len(),
{
    if bytes.len() == 0 {
        d
    } else {
        cobs_fed(feed_all(d, bytes.drop_last()), bytes.last())
    }
}

/// The COBS encoding of `source` that `cobs::try_encode` writes, without the
/// terminating zero.
pub uninterp spec fn cobs_encoding(source: Seq<u8>) -> Seq<u8>;

/// The size of destination buffer that the `cobs` crate's
/// `max_encoding_length` gives as always large enough for a source of `n` bytes.
pub open spec fn max_encoded_len(n: nat) -> nat {
    if n == 0 {
        1
    } else {
        n + (n + 253) / 254
    }
}

/// Decoder `d` decodes what `cobs::try_encode` encodes: fed the encoding of
/// any payload of at most `capacity` bytes, it reports nothing for each
/// encoded byte and, on the terminating zero, a complete frame of the
/// payload's length with the payload at the front of its buffer, which keeps
/// its `capacity` bytes.
pub open spec fn decodes_encodings(d: CobsDecoderOwned, capacity: nat) -> bool {
    forall|p: Seq<u8>|
        #![trigger cobs_encoding(p)]
        p.len() <= capacity ==> {
            let enc = cobs_encoding(p);
            &&& forall|i: int|
                0 <= i < enc.len() ==> cobs_feed_outcome(
                    #[trigger] feed_all(d, enc.take(i)),
                    enc[i],
                ) == FeedOutcome::Pending
            &&& cobs_feed_outcome(feed_all(d, enc), 0) == FeedOutcome::Complete(p.len() as usize)
            &&& cobs_decoder_buffer(cobs_fed(feed_all(d, enc), 0)).len() == capacity
            &&& cobs_decoder_buffer(cobs_fed(feed_all(d, enc), 0)).take(p.len() as int) == p
        }
}

/// `cobs::CobsDecoderOwned::new`: a fresh decoder whose buffer is
/// `capacity` zero bytes. Claims too that it decodes what `cobs::try_encode`
/// encodes (the crate's round trip): fed the encoding of a payload that fits
/// in its buffer, it reports nothing for each encoded byte, and on the
/// terminating zero a complete frame of the payload's length, with the
/// payload at the front of its buffer.
#[verifier::external_body]
fn new_decoder(capacity: usize) -> (d: CobsDecoderOwned)
    ensures
        d == cobs_fresh_decoder(capacity),
        cobs_decoder_buffer(d) == Seq::new(capacity as nat, |i: int| 0u8),
        decodes_encodings(d, capacity as nat),
{
    CobsDecoderOwned::new(capacity)
}

/// What feeding one byte to the streaming decoder gave.
#[derive(Clone, Copy, Debug, PartialEq, Eq, Structural)]
pub enum FeedOutcome {
    /// More bytes are needed.
    Pending,
    /// The frame was malformed, or longer than the decode buffer.
    Failed,
    /// A frame of the given length was decoded into the buffer.
    Complete(usize),
}

/// `cobs::CobsDecoderOwned::feed`, with its result mapped to [`FeedOutcome`].
/// Claims that the outcome is the one the decoder's state and the byte
/// determine ([`cobs_feed_outcome`]); that a frame completes only on a zero
/// byte, the frame terminator; that the buffer keeps its length; and that a
/// completed frame fits in it; and that the decoder left behind is the one
/// the decoder and the byte determine ([`cobs_fed`]). The decoder's state
/// machine itself is not written out here.
#[verifier::external_body]
fn decoder_feed(d: &mut CobsDecoderOwned, byte: u8) -> (r: FeedOutcome)
    ensures
        r == cobs_feed_outcome(*old(d), byte),
        *final(d) == cobs_fed(*old(d), byte),
        r matches FeedOutcome::Complete(_) ==> byte == 0,
        cobs_decoder_buffer(*final(d)).len() == cobs_decoder_buffer(*old(d)).len(),
        r matches FeedOutcome::Complete(n) ==> n <= cobs_decoder_buffer(*final(d)).len(),
{
    match d.feed(byte) {
        Ok(None) => FeedOutcome::Pending,
        Ok(Some(n)) => FeedOutcome::Complete(n),
        Err(_) => FeedOutcome::Failed,
    }
}

/// `cobs::CobsDecoderOwned::dest`: a copy of the decode buffer.
#[verifier::external_body]
fn decoder_dest(d: &CobsDecoderOwned) -> (v: Vec<u8>)
    ensures
        v@ == cobs_decoder_buffer(*d),
{
    d.dest().to_vec()
}

/// `cobs::try_encode`: encodes `source` into the front of `dest`. Claims that
/// it succeeds when `dest` has the room `max_encoding_length` asks for, that
/// a success reports the encoding's length, which is within that bound, and
/// that when the encoding fits it was written to the front of `dest` and holds
/// no zero byte. What it leaves in the rest of `dest` is not stated.
#[verifier::external_body]
fn cobs_try_encode(source: &[u8], dest: &mut Vec<u8>) -> (r: Result<usize, ()>)
    ensures
        final(dest)@.len() == old(dest)@.len(),
        old(dest)@.len() >= max_encoded_len(source@.len()) ==> r is Ok,
        r matches Ok(n) ==> n == cobs_encoding(source@).len(),
        r matches Ok(n) ==> n <= max_encoded_len(source@.len()),
        r matches Ok(n) ==> (n <= old(dest)@.len() ==> final(dest)@.take(n as int)
            == cobs_encoding(source@)),
        r matches Ok(n) ==> (n <= old(dest)@.len() ==> forall|i: int|
            0 <= i < n ==> #[trigger] final(dest)@[i] != 0),
{
    match cobs::try_encode(source, dest.as_mut_slice()) {
        Ok(n) => Ok(n),
        Err(_) => Err(()),
    }
}

/// The value of four bytes read as a big-endian two's-complement `i32`.
pub open spec fn i32_from_be(b0: u8, b1: u8, b2: u8, b3: u8) -> int {
    let u = b0 * 0x100_0000 + b1 * 0x1_0000 + b2 * 0x100 + b3;
    if u >= 0x8000_0000 {
        u - 0x1_0000_0000
    } else {
        u
    }
}

/// The four big-endian bytes of the two's-complement form of `x`.
pub open spec fn i32_to_be(x: i32) -> Seq<u8> {
    let u: int = if x < 0 {
        x + 0x1_0000_0000
    } else {
        x as int
    };
    seq![
        (u / 0x100_0000) as u8,
        ((u / 0x1_0000) % 0x100) as u8,
        ((u / 0x100) % 0x100) as u8,
        (u % 0x100) as u8,
    ]
}

/// Reads four bytes as a big-endian `i32`.
pub fn read_i32_be(b0: u8, b1: u8, b2: u8, b3: u8) -> (x: i32)
    ensures
        x == i32_from_be(b0, b1, b2, b3),
{
    let u: u64 = (b0 as u64) * 0x100_0000 + (b1 as u64) * 0x1_0000 + (b2 as u64) * 0x100
        + (b3 as u64);
    if u >= 0x8000_0000 {
        let neg: i64 = (u as i64) - 0x1_0000_0000;
        neg as i32
    } else {
        u as i32
    }
}

/// The four big-endian bytes of `x`.
pub fn write_i32_be(x: i32) -> (b: [u8; 4])
    ensures
        b@ == i32_to_be(x),
{
    let u: u64 = if x < 0 {
        (x as i64 + 0x1_0000_0000) as u64
    } else {
        x as u64
    };
    let b = [
        (u / 0x100_0000) as u8,
        ((u / 0x1_0000) % 0x100) as u8,
        ((u / 0x100) % 0x100) as u8,
        (u % 0x100) as u8,
    ];
    assert(b@ =~= i32_to_be(x));
    b
}

/// Writing an `i32` as four big-endian bytes and reading them back gives it back.
pub proof fn lemma_i32_be_round_trip(x: i32)
    ensures
        ({
            let b = i32_to_be(x);
            i32_from_be(b[0], b[1], b[2], b[3]) == x
        }),
{
    let u: int = if x < 0 {
        x + 0x1_0000_0000
    } else {
        x as int
    };
    assert(0 <= u < 0x1_0000_0000);
    let b0 = u / 0x100_0000;
    let b1 = (u / 0x1_0000) % 0x100;
    let b2 = (u / 0x100) % 0x100;
    let b3 = u % 0x100;
    assert(b0 * 0x100_0000 + b1 * 0x1_0000 + b2 * 0x100 + b3 == u) by (nonlinear_arith)
        requires
            0 <= u < 0x1_0000_0000,
            b0 == u / 0x100_0000,
            b1 == (u / 0x1_0000) % 0x100,
            b2 == (u / 0x100) % 0x100,
            b3 == u % 0x100,
    ;
}

/// The length of a control frame.
pub const CONTROL_PACKET_LEN: usize = 16;

/// The size of the buffer control frames are decoded into.
pub const DECODE_BUFFER_LEN: usize = 1024;

/// The size of the packet the odometry answer is encoded into.
pub const REPLY_PACKET_LEN: usize = 62;

/// A command from the host.
#[derive(Clone, Copy, Debug, PartialEq, Eq, Structural)]
pub struct ControlPacket {
    /// Chassis velocity along x, in mm/s.
    pub x: i32,
    /// Chassis velocity along y, in mm/s.
    pub y: i32,
    /// Chassis rotation rate, in deg/s.
    pub w: i32,
    /// Dribbler speed, in percent.
    pub dribbler: i32,
}

/// The command that the first 16 bytes of `b` carry.
pub open spec fn control_packet_of(b: Seq<u8>) -> ControlPacket {
    ControlPacket {
        x: i32_from_be(b[0], b[1], b[2], b[3]) as i32,
        y: i32_from_be(b[4], b[5], b[6], b[7]) as i32,
        w: i32_from_be(b[8], b[9], b[10], b[11]) as i32,
        dribbler: i32_from_be(b[12], b[13], b[14], b[15]) as i32,
    }
}

/// Reads a control command from the first 16 bytes of `b`.
pub fn parse_control_packet(b: &[u8]) -> (p: ControlPacket)
    requires
        b@.len() >= CONTROL_PACKET_LEN,
    ensures
        p == control_packet_of(b@),
{
    ControlPacket {
        x: read_i32_be(b[0], b[1], b[2], b[3]),
        y: read_i32_be(b[4], b[5], b[6], b[7]),
        w: read_i32_be(b[8], b[9], b[10], b[11]),
        dribbler: read_i32_be(b[12], b[13], b[14], b[15]),
    }
}

/// What a received byte led to.
#[derive(Clone, Copy, Debug, PartialEq, Eq, Structural)]
pub enum LinkEvent {
    /// Nothing yet: the frame is not complete.
    Nothing,
    /// The frame could not be decoded.
    DecodeFailed,
    /// A frame was decoded, but it is not the size of a control frame.
    InvalidSize(usize),
    /// A control command was received.
    Command(ControlPacket),
}

/// The event for a decoder outcome, given the decode buffer afterwards.
pub open spec fn frame_event_spec(outcome: FeedOutcome, buffer: Seq<u8>) -> LinkEvent {
    match outcome {
        FeedOutcome::Pending => LinkEvent::Nothing,
        FeedOutcome::Failed => LinkEvent::DecodeFailed,
        FeedOutcome::Complete(n) => if n != CONTROL_PACKET_LEN {
            LinkEvent::InvalidSize(n)
        } else {
            LinkEvent::Command(control_packet_of(buffer))
        },
    }
}

/// Turns what the decoder reported into an event: a complete frame of exactly
/// 16 bytes is a command read from the front of the decode buffer.
pub fn frame_event(outcome: FeedOutcome, buffer: &[u8]) -> (e: LinkEvent)
    requires
        outcome matches FeedOutcome::Complete(n) ==> n <= buffer@.len(),
    ensures
        e == frame_event_spec(outcome, buffer@),
{
    match outcome {
        FeedOutcome::Pending => LinkEvent::Nothing,
        FeedOutcome::Failed => LinkEvent::DecodeFailed,
        FeedOutcome::Complete(n) => {
            if n != CONTROL_PACKET_LEN {
                LinkEvent::InvalidSize(n)
            } else {
                LinkEvent::Command(parse_control_packet(buffer))
            }
        },
    }
}

/// The receiving end of the control link.
pub struct ControlLink {
    decoder: CobsDecoderOwned,
}

impl ControlLink {
    /// The decode buffer.
    pub closed spec fn buffer(&self) -> Seq<u8> {
        cobs_decoder_buffer(self.decoder)
    }

    /// The link's decoder, with its frame state, write index and buffer.
    pub closed spec fn decoder_state(&self) -> CobsDecoderOwned {
        self.decoder
    }

    /// What the decoder reports when fed `byte` in its present state.
    pub closed spec fn feed_outcome(&self, byte: u8) -> FeedOutcome {
        cobs_feed_outcome(self.decoder, byte)
    }

    pub open spec fn wf(&self) -> bool {
        self.buffer().len() == DECODE_BUFFER_LEN
    }

    /// A link waiting for its first frame, decoding into a buffer of 1024
    /// zero bytes. Fed the COBS encoding of a 16-byte payload and then the
    /// terminating zero, it reports nothing for each encoded byte and, on the
    /// zero, the command the payload carries.
    pub fn new() -> (l: ControlLink)
        ensures
            l.wf(),
            l.buffer() == Seq::new(DECODE_BUFFER_LEN as nat, |i: int| 0u8),
            l.decoder_state() == cobs_fresh_decoder(DECODE_BUFFER_LEN),
            forall|p: Seq<u8>|
                #![trigger cobs_encoding(p)]
                p.len() == CONTROL_PACKET_LEN ==> {
                    let wire = cobs_encoding(p).push(0);
                    &&& forall|i: int|
                        0 <= i < wire.len() - 1 ==> #[trigger] event_at(l.decoder_state(), wire, i)
                            == LinkEvent::Nothing
                    &&& event_at(l.decoder_state(), wire, wire.len() - 1) == LinkEvent::Command(
                        control_packet_of(p),
                    )
                },
    {
        let l = ControlLink { decoder: new_decoder(DECODE_BUFFER_LEN) };
        proof {
            assert forall|p: Seq<u8>| p.len() == CONTROL_PACKET_LEN implies {
                let wire = #[trigger] cobs_encoding(p).push(0);
                &&& forall|i: int|
                    0 <= i < wire.len() - 1 ==> #[trigger] event_at(l.decoder_state(), wire, i)
                        == LinkEvent::Nothing
                &&& event_at(l.decoder_state(), wire, wire.len() - 1) == LinkEvent::Command(
                    control_packet_of(p),
                )
            } by {
                lemma_round_trip_events(l.decoder, p);
            }
        }
        l
    }

    /// Takes one received byte: feeds it to the decoder and turns what the
    /// decoder reports into an event. A frame completed on the terminating
    /// zero byte is a command, read from the front of the decode buffer, when
    /// it is exactly 16 bytes long.
    pub fn receive(&mut self, byte: u8) -> (e: LinkEvent)
        requires
            old(self).wf(),
        ensures
            final(self).wf(),
            e == frame_event_spec(old(self).feed_outcome(byte), final(self).buffer()),
            e is Command || e is InvalidSize ==> byte == 0,
            final(self).decoder_state() == cobs_fed(old(self).decoder_state(), byte),
    {
        let outcome = decoder_feed(&mut self.decoder, byte);
        let e = match outcome {
            FeedOutcome::Complete(_) => {
                let buffer = decoder_dest(&self.decoder);
                assert(buffer@ == self.buffer());
                frame_event(outcome, buffer.as_slice())
            },
            _ => frame_event(outcome, &[]),
        };
        assert(e == frame_event_spec(outcome, self.buffer()));
        e
    }
}

/// The event for byte `i` of `bytes` fed, in order, to decoder `d`.
pub open spec fn event_at(d: CobsDecoderOwned, bytes: Seq<u8>, i: int) -> LinkEvent {
    frame_event_spec(
        cobs_feed_outcome(feed_all(d, bytes.take(i)), bytes[i]),
        cobs_decoder_buffer(feed_all(d, bytes.take(i + 1))),
    )
}

impl ControlLink {
    /// Takes the bytes of one received packet, in order; returns the event of
    /// each byte. The decoder carries over from one packet to the next, so a
    /// frame may span packets.
    pub fn receive_packet(&mut self, data: &[u8]) -> (events: Vec<LinkEvent>)
        requires
            old(self).wf(),
        ensures
            final(self).wf(),
            final(self).decoder_state() == feed_all(old(self).decoder_state(), data@),
            events@.len() == data@.len(),
            forall|i: int|
                0 <= i < data@.len() ==> #[trigger] events@[i] == event_at(
                    old(self).decoder_state(),
                    data@,
                    i,
                ),
    {
        let ghost start = self.decoder_state();
        let mut events: Vec<LinkEvent> = Vec::new();
        let mut i: usize = 0;
        while i < data.len()
            invariant
                self.wf(),
                i <= data@.len(),
                self.decoder_state() == feed_all(start, data@.take(i as int)),
                events@.len() == i,
                forall|j: int|
                    0 <= j < i ==> #[trigger] events@[j] == event_at(start, data@, j),
            decreases data@.len() - i,
        {
            let ghost before = self.decoder_state();
            let e = self.receive(data[i]);
            proof {
                let t = data@.take(i + 1);
                assert(t.drop_last() =~= data@.take(i as int));
                assert(t.last() == data@[i as int]);
                assert(self.decoder_state() == feed_all(start, t));
                assert(self.buffer() == cobs_decoder_buffer(self.decoder_state()));
            }
            events.push(e);
            i = i + 1;
        }
        assert(data@.take(data@.len() as int) =~= data@);
        events
    }
}

/// The round trip for one payload, from what the fresh decoder is known to do.
proof fn lemma_round_trip_events(d: CobsDecoderOwned, p: Seq<u8>)
    requires
        p.len() == CONTROL_PACKET_LEN,
        forall|i: int|
            0 <= i < cobs_encoding(p).len() ==> cobs_feed_outcome(
                #[trigger] feed_all(d, cobs_encoding(p).take(i)),
                cobs_encoding(p)[i],
            ) == FeedOutcome::Pending,
        cobs_feed_outcome(feed_all(d, cobs_encoding(p)), 0) == FeedOutcome::Complete(
            p.len() as usize,
        ),
        cobs_decoder_buffer(cobs_fed(feed_all(d, cobs_encoding(p)), 0)).len() >= p.len(),
        cobs_decoder_buffer(cobs_fed(feed_all(d, cobs_encoding(p)), 0)).take(p.len() as int) == p,
    ensures
        ({
            let wire = cobs_encoding(p).push(0);
            &&& forall|i: int|
                0 <= i < wire.len() - 1 ==> #[trigger] event_at(d, wire, i) == LinkEvent::Nothing
            &&& event_at(d, wire, wire.len() - 1) == LinkEvent::Command(control_packet_of(p))
        }),
{
    let enc = cobs_encoding(p);
    let wire = enc.push(0);
    assert forall|i: int| 0 <= i < wire.len() - 1 implies #[trigger] event_at(d, wire, i)
        == LinkEvent::Nothing by {
        assert(wire.take(i) =~= enc.take(i));
        assert(wire[i] == enc[i]);
        assert(cobs_feed_outcome(feed_all(d, enc.take(i)), enc[i]) == FeedOutcome::Pending);
    }
    let n = wire.len() - 1;
    assert(wire.take(n) =~= enc);
    assert(wire.take(n + 1) =~= wire);
    assert(wire.drop_last() =~= enc);
    assert(feed_all(d, wire) == cobs_fed(feed_all(d, enc), 0));
    let buf = cobs_decoder_buffer(feed_all(d, wire));
    assert(buf.take(16) == p);
    assert forall|k: int| 0 <= k < 16 implies buf[k] == p[k] by {
        assert(buf.take(16)[k] == buf[k]);
    }
    assert(control_packet_of(buf) == control_packet_of(p));
}

/// The 12 bytes of an odometry answer: each value big-endian, in order.
pub open spec fn odometry_payload(odoms: [i32; 3]) -> Seq<u8> {
    i32_to_be(odoms[0]) + i32_to_be(odoms[1]) + i32_to_be(odoms[2])
}

/// The value of four bytes read as an unsigned big-endian number.
pub open spec fn be_unsigned(b: Seq<u8>, at: int) -> int {
    b[at] as int * 0x100_0000 + b[at + 1] as int * 0x1_0000 + b[at + 2] as int * 0x100 + b[at
        + 3] as int
}

/// Each `i32` is carried as its four two's-complement bytes, most
/// significant first: read back as an unsigned number they give the value,
/// plus 2^32 for a negative one.
pub proof fn lemma_i32_to_be_value(x: i32)
    ensures
        i32_to_be(x).len() == 4,
        be_unsigned(i32_to_be(x), 0) == if x < 0 {
            x + 0x1_0000_0000
        } else {
            x as int
        },
{
    let u: int = if x < 0 {
        x + 0x1_0000_0000
    } else {
        x as int
    };
    let b0 = u / 0x100_0000;
    let b1 = (u / 0x1_0000) % 0x100;
    let b2 = (u / 0x100) % 0x100;
    let b3 = u % 0x100;
    assert(b0 * 0x100_0000 + b1 * 0x1_0000 + b2 * 0x100 + b3 == u) by (nonlinear_arith)
        requires
            0 <= u < 0x1_0000_0000,
            b0 == u / 0x100_0000,
            b1 == (u / 0x1_0000) % 0x100,
            b2 == (u / 0x100) % 0x100,
            b3 == u % 0x100,
    ;
}

/// The odometry payload carries each value unchanged, negative ones
/// included: bytes `4k..4k+4` read back big-endian give value `k`.
pub proof fn lemma_odometry_payload_values(odoms: [i32; 3])
    ensures
        odometry_payload(odoms).len() == 12,
        forall|k: int|
            0 <= k < 3 ==> #[trigger] be_unsigned(odometry_payload(odoms), 4 * k) == if odoms[k]
                < 0 {
                odoms[k] + 0x1_0000_0000
            } else {
                odoms[k] as int
            },
        forall|k: int|
            0 <= k < 3 ==> i32_from_be(
                odometry_payload(odoms)[4 * k],
                odometry_payload(odoms)[4 * k + 1],
                odometry_payload(odoms)[4 * k + 2],
                #[trigger] odometry_payload(odoms)[4 * k + 3],
            ) == odoms[k],
{
    let p = odometry_payload(odoms);
    lemma_i32_to_be_value(odoms[0]);
    lemma_i32_to_be_value(odoms[1]);
    lemma_i32_to_be_value(odoms[2]);
    lemma_i32_be_round_trip(odoms[0]);
    lemma_i32_be_round_trip(odoms[1]);
    lemma_i32_be_round_trip(odoms[2]);
    let a = i32_to_be(odoms[0]);
    let b = i32_to_be(odoms[1]);
    let c = i32_to_be(odoms[2]);
    assert forall|j: int| 0 <= j < 4 implies p[j] == a[j] && p[4 + j] == b[j] && p[8 + j] == c[j] by {
    }
    assert forall|k: int| 0 <= k < 3 implies #[trigger] be_unsigned(p, 4 * k) == if odoms[k] < 0 {
        odoms[k] + 0x1_0000_0000
    } else {
        odoms[k] as int
    } by {
        if k == 0 {
            assert(be_unsigned(p, 0) == be_unsigned(a, 0));
        } else if k == 1 {
            assert(be_unsigned(p, 4) == be_unsigned(b, 0));
        } else {
            assert(be_unsigned(p, 8) == be_unsigned(c, 0));
        }
    }
}

/// The odometry answer packet: the COBS encoding of the payload, padded with
/// zero bytes to 62 bytes.
pub open spec fn odometry_reply_spec(odoms: [i32; 3]) -> Seq<u8> {
    let enc = cobs_encoding(odometry_payload(odoms));
    enc + Seq::new((REPLY_PACKET_LEN - enc.len()) as nat, |i: int| 0u8)
}

/// Builds the answer to a control command from the chassis odometry
/// (x and y in mm, rotation in degrees).
pub fn odometry_reply(odoms: [i32; 3]) -> (r: Vec<u8>)
    ensures
        cobs_encoding(odometry_payload(odoms)).len() <= 13,
        r@ == odometry_reply_spec(odoms),
        r@.take(cobs_encoding(odometry_payload(odoms)).len() as int) == cobs_encoding(
            odometry_payload(odoms),
        ),
        r@.len() == REPLY_PACKET_LEN,
        forall|i: int|
            0 <= i < cobs_encoding(odometry_payload(odoms)).len() ==> #[trigger] r@[i] != 0,
{
    let mut payload: Vec<u8> = Vec::new();
    let mut k: usize = 0;
    while k < 3
        invariant
            k <= 3,
            payload@ == (if k == 0 {
                Seq::<u8>::empty()
            } else if k == 1 {
                i32_to_be(odoms[0])
            } else if k == 2 {
                i32_to_be(odoms[0]) + i32_to_be(odoms[1])
            } else {
                odometry_payload(odoms)
            }),
        decreases 3 - k,
    {
        let b = write_i32_be(odoms[k]);
        payload.push(b[0]);
        payload.push(b[1]);
        payload.push(b[2]);
        payload.push(b[3]);
        proof {
            assert(b@.len() == 4);
            if k == 0 {
                assert(payload@ =~= i32_to_be(odoms[0]));
            } else if k == 1 {
                assert(payload@ =~= i32_to_be(odoms[0]) + i32_to_be(odoms[1]));
            } else {
                assert(payload@ =~= odometry_payload(odoms));
            }
        }
        k = k + 1;
    }
    let mut buf: Vec<u8> = Vec::new();
    let mut j: usize = 0;
    while j < REPLY_PACKET_LEN
        invariant
            j <= REPLY_PACKET_LEN,
            buf@ == Seq::new(j as nat, |i: int| 0u8),
        decreases REPLY_PACKET_LEN - j,
    {
        buf.push(0);
        proof {
            assert(buf@ =~= Seq::new((j + 1) as nat, |i: int| 0u8));
        }
        j = j + 1;
    }
    assert(payload@.len() == 12);
    let n = match cobs_try_encode(payload.as_slice(), &mut buf) {
        Ok(n) => n,
        Err(()) => {
            assert(false);
            0
        },
    };
    let ghost enc = cobs_encoding(odometry_payload(odoms));
    let mut r: Vec<u8> = Vec::new();
    let mut i: usize = 0;
    while i < REPLY_PACKET_LEN
        invariant
            enc == cobs_encoding(odometry_payload(odoms)),
            n == enc.len(),
            n <= 13,
            buf@.len() == REPLY_PACKET_LEN,
            buf@.take(n as int) == enc,
            i <= REPLY_PACKET_LEN,
            r@ == odometry_reply_spec(odoms).take(i as int),
        decreases REPLY_PACKET_LEN - i,
    {
        let byte: u8 = if i < n {
            buf[i]
        } else {
            0
        };
        proof {
            let spec = odometry_reply_spec(odoms);
            let zeros = Seq::new((REPLY_PACKET_LEN - enc.len()) as nat, |k: int| 0u8);
            assert(spec =~= enc + zeros);
            if i < n {
                assert(buf@.take(n as int)[i as int] == buf@[i as int]);
                assert(spec[i as int] == enc[i as int]);
            } else {
                assert(spec[i as int] == zeros[i - n]);
            }
            assert(spec[i as int] == byte);
            assert(odometry_reply_spec(odoms).take(i + 1) =~= odometry_reply_spec(odoms).take(
                i as int,
            ).push(byte));
        }
        r.push(byte);
        i = i + 1;
    }
    assert(odometry_reply_spec(odoms).take(REPLY_PACKET_LEN as int) =~= odometry_reply_spec(
        odoms,
    ));
    proof {
        assert forall|i: int| 0 <= i < enc.len() implies #[trigger] r@[i] != 0 by {
            assert(buf@.take(n as int)[i] == buf@[i]);
        }
    }
    r
}

} // verus!
