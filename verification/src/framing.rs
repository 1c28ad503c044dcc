//! Length-prefixed framing of Layer-2 frames over a reliable byte stream.
//!
//! Each frame travels as a 4-byte big-endian length `N` followed by the `N`
//! bytes of the frame. A receiver that sees a length of zero or one above
//! [`MAX_FRAME`] treats the stream as corrupt and stops.
use vstd::prelude::*;

verus! {

/// Largest single Layer-2 frame carried over the tunnel.
pub const MAX_FRAME: usize = 2048;

/// Number of bytes in a frame header.
pub const HEADER_LEN: usize = 4;

/// The big-endian value of the first four bytes of `s`.
pub open spec fn header_value(s: Seq<u8>) -> nat
    recommends s.len() >= 4,
{
    (s[0] as nat) * 16777216 + (s[1] as nat) * 65536 + (s[2] as nat) * 256 + (s[3] as nat)
}

/// The four big-endian bytes of `n`.
pub open spec fn header_bytes(n: nat) -> Seq<u8>
    recommends n < 0x1_0000_0000,
{
    seq![
        ((n / 16777216) % 256) as u8,
        ((n / 65536) % 256) as u8,
        ((n / 256) % 256) as u8,
        (n % 256) as u8,
    ]
}

/// A frame length that the tunnel carries.
pub open spec fn frame_len_ok(n: int) -> bool {
    1 <= n <= MAX_FRAME
}

/// The bytes that carry one frame: its header, then the frame.
pub open spec fn encode_frame_spec(frame: Seq<u8>) -> Seq<u8> {
    header_bytes(frame.len()) + frame
}

/// Reading back the header written for a length gives that length.
pub proof fn lemma_header_roundtrip(n: nat)
    requires n < 0x1_0000_0000,
    ensures
        header_bytes(n).len() == 4,
        header_value(header_bytes(n)) == n,
{
    let b = header_bytes(n);
    assert(b[0] as nat == (n / 16777216) % 256);
    assert(b[1] as nat == (n / 65536) % 256);
    assert(b[2] as nat == (n / 256) % 256);
    assert(b[3] as nat == n % 256);
    assert(header_value(b) == n) by (nonlinear_arith)
        requires
            n < 0x1_0000_0000,
            b[0] as nat == (n / 16777216) % 256,
            b[1] as nat == (n / 65536) % 256,
            b[2] as nat == (n / 256) % 256,
            b[3] as nat == n % 256,
            header_value(b) == (b[0] as nat) * 16777216 + (b[1] as nat) * 65536 + (b[2] as nat) * 256 + (b[3] as nat),
    ;
}


/// What a receiver makes of a byte stream: the frames it carries in order,
/// the bytes left over that do not yet form a whole frame, and whether the
/// stream stopped at a header that no frame may have.
pub struct Decoded {
    pub frames: Seq<Seq<u8>>,
    pub rest: Seq<u8>,
    pub corrupt: bool,
}

/// Reads frames off the front of `s` until it runs out of whole frames or
/// meets a header whose length is zero or above [`MAX_FRAME`].
pub open spec fn decode(s: Seq<u8>) -> Decoded
    decreases s.len(),
{
    if s.len() < 4 {
        Decoded { frames: seq![], rest: s, corrupt: false }
    } else {
        let n = header_value(s) as int;
        if !frame_len_ok(n) {
            Decoded { frames: seq![], rest: s, corrupt: true }
        } else if s.len() < 4 + n {
            Decoded { frames: seq![], rest: s, corrupt: false }
        } else {
            let d = decode(s.skip(4 + n));
            Decoded { frames: seq![s.subrange(4, 4 + n)] + d.frames, rest: d.rest, corrupt: d.corrupt }
        }
    }
}

/// What a receiver that has decoded `d` makes of `more` bytes that follow.
pub open spec fn resume(d: Decoded, more: Seq<u8>) -> Decoded {
    if d.corrupt {
        Decoded { frames: d.frames, rest: d.rest + more, corrupt: true }
    } else {
        let e = decode(d.rest + more);
        Decoded { frames: d.frames + e.frames, rest: e.rest, corrupt: e.corrupt }
    }
}

/// The bytes that carry `frames`, one after the other.
pub open spec fn encode_all(frames: Seq<Seq<u8>>) -> Seq<u8>
    decreases frames.len(),
{
    if frames.len() == 0 {
        seq![]
    } else {
        encode_frame_spec(frames[0]) + encode_all(frames.drop_first())
    }
}

/// Every frame has a length that the tunnel carries.
pub open spec fn all_frames_ok(frames: Seq<Seq<u8>>) -> bool {
    forall|i: int| 0 <= i < frames.len() ==> #[trigger] frame_len_ok(frames[i].len() as int)
}

/// Splitting a stream anywhere changes nothing: decoding `a` and then going on
/// with `b` gives what decoding `a + b` at once gives. This is why frames come
/// out whole however the transport cuts the stream into chunks.
pub proof fn lemma_decode_concat(a: Seq<u8>, b: Seq<u8>)
    ensures
        decode(a + b) == resume(decode(a), b),
    decreases a.len(),
{
    let d = decode(a);
    if a.len() < 4 {
        assert(d.rest + b =~= a + b);
        let e = decode(a + b);
        assert(d.frames + e.frames =~= e.frames);
    } else {
        let n = header_value(a) as int;
        assert((a + b).subrange(0, 4) =~= a.subrange(0, 4));
        assert(header_value(a + b) as int == n);
        if !frame_len_ok(n) {
            assert(decode(a + b).rest =~= a + b);
        } else if a.len() < 4 + n {
            assert(d.rest + b =~= a + b);
            let e = decode(a + b);
            assert(d.frames + e.frames =~= e.frames);
        } else {
            let tail = a.skip(4 + n);
            assert((a + b).skip(4 + n) =~= tail + b);
            assert((a + b).subrange(4, 4 + n) =~= a.subrange(4, 4 + n));
            lemma_decode_concat(tail, b);
            let dt = decode(tail);
            if !dt.corrupt {
                let e = decode(dt.rest + b);
                assert(seq![a.subrange(4, 4 + n)] + (dt.frames + e.frames)
                    =~= (seq![a.subrange(4, 4 + n)] + dt.frames) + e.frames);
            }
        }
    }
}

/// Encoded frames, followed by anything, decode back to exactly those frames,
/// followed by what the rest decodes to.
pub proof fn lemma_encode_then_decode(frames: Seq<Seq<u8>>, tail: Seq<u8>)
    requires
        all_frames_ok(frames),
    ensures
        decode(encode_all(frames) + tail) == (Decoded {
            frames: frames + decode(tail).frames,
            rest: decode(tail).rest,
            corrupt: decode(tail).corrupt,
        }),
    decreases frames.len(),
{
    if frames.len() == 0 {
        assert(encode_all(frames) + tail =~= tail);
        assert(frames + decode(tail).frames =~= decode(tail).frames);
    } else {
        let f = frames[0];
        let others = frames.drop_first();
        assert(frame_len_ok(f.len() as int));
        assert forall|i: int| 0 <= i < others.len() implies #[trigger] frame_len_ok(others[i].len() as int) by {
            assert(others[i] == frames[i + 1]);
            assert(frame_len_ok(frames[i + 1].len() as int));
        }
        lemma_encode_then_decode(others, tail);
        lemma_header_roundtrip(f.len());
        let n = f.len() as int;
        let s = encode_all(frames) + tail;
        let h = header_bytes(f.len());
        assert(s =~= h + (f + (encode_all(others) + tail)));
        assert(s.subrange(0, 4) =~= h);
        assert(s[0] == h[0] && s[1] == h[1] && s[2] == h[2] && s[3] == h[3]);
        assert(header_value(s) as int == n);
        assert(s.subrange(4, 4 + n) =~= f);
        assert(s.skip(4 + n) =~= encode_all(others) + tail);
        assert(seq![f] + (others + decode(tail).frames) =~= frames + decode(tail).frames);
    }
}

/// The round trip of the tunnel: frames that are sent come out as exactly
/// those frames, in order, with nothing left over.
pub proof fn lemma_roundtrip(frames: Seq<Seq<u8>>)
    requires
        all_frames_ok(frames),
    ensures
        decode(encode_all(frames)) == (Decoded { frames: frames, rest: seq![], corrupt: false }),
{
    lemma_encode_then_decode(frames, seq![]);
    assert(encode_all(frames) + seq![] =~= encode_all(frames));
    assert(frames + seq![] =~= frames);
}


/// At every moment of a transfer the receiver has handed out the first
/// frames that were sent, in order, and nothing else: any prefix of the
/// encoded stream decodes to a prefix of the frames, and never to a stop.
pub proof fn lemma_prefix_decodes_to_sent_prefix(sent: Seq<Seq<u8>>, k: int)
    requires
        all_frames_ok(sent),
        0 <= k <= encode_all(sent).len(),
    ensures
        !decode(encode_all(sent).take(k)).corrupt,
        decode(encode_all(sent).take(k)).frames.len() <= sent.len(),
        decode(encode_all(sent).take(k)).frames
            == sent.take(decode(encode_all(sent).take(k)).frames.len() as int),
    decreases sent.len(),
{
    let p = encode_all(sent).take(k);
    if sent.len() == 0 {
        assert(p.len() == 0);
    } else {
        let f = sent[0];
        let others = sent.drop_first();
        let n = f.len() as int;
        assert(frame_len_ok(n));
        assert forall|i: int| 0 <= i < others.len() implies #[trigger] frame_len_ok(others[i].len() as int) by {
            assert(others[i] == sent[i + 1]);
            assert(frame_len_ok(sent[i + 1].len() as int));
        }
        lemma_header_roundtrip(f.len());
        let h = header_bytes(f.len());
        let whole = encode_all(sent);
        assert(whole =~= h + (f + encode_all(others)));
        if k < 4 {
            assert(decode(p).frames.len() == 0);
            assert(sent.take(0) =~= Seq::<Seq<u8>>::empty());
        } else {
            assert(p.subrange(0, 4) =~= h);
            assert(p[0] == h[0] && p[1] == h[1] && p[2] == h[2] && p[3] == h[3]);
            assert(header_value(p) as int == n);
            if k < 4 + n {
                assert(decode(p).frames.len() == 0);
                assert(sent.take(0) =~= Seq::<Seq<u8>>::empty());
            } else {
                let k2 = k - 4 - n;
                lemma_prefix_decodes_to_sent_prefix(others, k2);
                assert(p.subrange(4, 4 + n) =~= f);
                assert(p.skip(4 + n) =~= encode_all(others).take(k2));
                let d2 = decode(encode_all(others).take(k2));
                let m = d2.frames.len() as int;
                assert(decode(p).frames =~= seq![f] + d2.frames);
                assert(sent.take(m + 1) =~= seq![f] + others.take(m));
            }
        }
    }
}

/// A frame goes out as its length in four big-endian bytes (most
/// significant first), then the frame itself, unchanged.
pub proof fn lemma_frame_encoding_is_big_endian(frame: Seq<u8>)
    requires
        frame.len() <= MAX_FRAME,
    ensures
        encode_frame_spec(frame).len() == frame.len() + 4,
        encode_frame_spec(frame).skip(4) == frame,
        frame.len() == (encode_frame_spec(frame)[0] as int) * 16777216
            + (encode_frame_spec(frame)[1] as int) * 65536
            + (encode_frame_spec(frame)[2] as int) * 256
            + (encode_frame_spec(frame)[3] as int),
        encode_frame_spec(frame)[0] == 0 && encode_frame_spec(frame)[1] == 0,
{
    lemma_header_roundtrip(frame.len());
    let e = encode_frame_spec(frame);
    assert(e.skip(4) =~= frame);
    assert(e[0] == header_bytes(frame.len())[0] && e[1] == header_bytes(frame.len())[1]);
    assert(e[2] == header_bytes(frame.len())[2] && e[3] == header_bytes(frame.len())[3]);
}

/// A receiver refuses a header that announces no bytes or more than
/// [`MAX_FRAME`]: at such a header the stream stops and nothing from it on is
/// handed out; any other header, with its whole frame present, gives that
/// frame, the bytes right after the header.
pub proof fn lemma_receiver_checks_length(s: Seq<u8>)
    requires
        s.len() >= 4,
    ensures
        ({
            let n = (s[0] as int) * 16777216 + (s[1] as int) * 65536 + (s[2] as int) * 256 + (s[3] as int);
            &&& (n == 0 || n > MAX_FRAME) ==> decode(s).corrupt && decode(s).frames.len() == 0
            &&& (1 <= n <= MAX_FRAME && s.len() >= 4 + n) ==> decode(s).frames.len() > 0
                && decode(s).frames[0] == s.subrange(4, 4 + n)
            &&& (1 <= n <= MAX_FRAME && s.len() < 4 + n) ==> decode(s).frames.len() == 0
                && !decode(s).corrupt && decode(s).rest == s
        }),
{
}

/// A receiver only ever hands out frames of a length the tunnel carries.
pub proof fn lemma_decoded_frames_ok(s: Seq<u8>)
    ensures
        all_frames_ok(decode(s).frames),
    decreases s.len(),
{
    if s.len() >= 4 {
        let n = header_value(s) as int;
        if frame_len_ok(n) && s.len() >= 4 + n {
            let tail = s.skip(4 + n);
            lemma_decoded_frames_ok(tail);
            let fs = decode(s).frames;
            assert forall|i: int| 0 <= i < fs.len() implies #[trigger] frame_len_ok(fs[i].len() as int) by {
                if i > 0 {
                    assert(fs[i] == decode(tail).frames[i - 1]);
                }
            }
        }
    }
}

/// Frames `frames` decoded before the stream `d` that follows them.
pub open spec fn after_frames(frames: Seq<Seq<u8>>, d: Decoded) -> Decoded {
    Decoded { frames: frames + d.frames, rest: d.rest, corrupt: d.corrupt }
}

/// The byte contents of a list of frames.
pub open spec fn frames_view(v: Seq<Vec<u8>>) -> Seq<Seq<u8>> {
    v.map_values(|f: Vec<u8>| f@)
}

/// Bytes that a receiver keeps between reads never hold a whole frame, so
/// they are shorter than a header and the largest frame.
pub proof fn lemma_rest_is_short(s: Seq<u8>)
    ensures
        !decode(s).corrupt ==> decode(s).rest.len() < HEADER_LEN + MAX_FRAME,
        decode(s).corrupt ==> decode(s).rest.len() >= HEADER_LEN,
    decreases s.len(),
{
    if s.len() >= 4 {
        let n = header_value(s) as int;
        if frame_len_ok(n) && s.len() >= 4 + n {
            lemma_rest_is_short(s.skip(4 + n));
        }
    }
}

/// The four bytes of a frame header for a frame of `len` bytes.
fn header_for(len: usize) -> (h: [u8; 4])
    requires
        len <= MAX_FRAME,
    ensures
        h@ == header_bytes(len as nat),
{
    let n: u32 = len as u32;
    let h: [u8; 4] = [
        (n / 16777216) as u8,
        ((n / 65536) % 256) as u8,
        ((n / 256) % 256) as u8,
        (n % 256) as u8,
    ];
    assert(h@ =~= header_bytes(len as nat));
    h
}

/// Encodes one frame for the tunnel: its length as four big-endian bytes,
/// then the frame itself.
pub fn encode_frame(frame: &[u8]) -> (out: Vec<u8>)
    requires
        frame@.len() <= MAX_FRAME,
    ensures
        out@ == encode_frame_spec(frame@),
        out@.len() == frame@.len() + HEADER_LEN,
{
    let h = header_for(frame.len());
    let mut out: Vec<u8> = Vec::with_capacity(frame.len() + HEADER_LEN);
    out.push(h[0]);
    out.push(h[1]);
    out.push(h[2]);
    out.push(h[3]);
    assert(out@ =~= h@);
    let mut i: usize = 0;
    while i < frame.len()
        invariant
            i <= frame@.len(),
            frame@.len() <= MAX_FRAME,
            h@ == header_bytes(frame@.len()),
            out@ =~= h@ + frame@.subrange(0, i as int),
        decreases frame@.len() - i,
    {
        out.push(frame[i]);
        i = i + 1;
    }
    assert(frame@.subrange(0, frame@.len() as int) =~= frame@);
    out
}

/// The length that a received header announces, if a frame may have it;
/// `None` for a length of zero or one above [`MAX_FRAME`], on which the
/// receiver stops.
pub fn frame_len_from_header(header: &[u8; 4]) -> (r: Option<usize>)
    ensures
        match r {
            Some(n) => frame_len_ok(header_value(header@) as int) && n as nat == header_value(header@),
            None => !frame_len_ok(header_value(header@) as int),
        },
{
    let n: u64 = (header[0] as u64) * 16777216 + (header[1] as u64) * 65536
        + (header[2] as u64) * 256 + (header[3] as u64);
    assert(n as nat == header_value(header@));
    if n == 0 || n > MAX_FRAME as u64 {
        None
    } else {
        Some(n as usize)
    }
}

/// What the sending side does with one read from the TAP device.
pub enum TapReadAction {
    /// The read returned no bytes: the device is closed and sending ends.
    DeviceClosed,
    /// Send these bytes into the tunnel.
    Send(Vec<u8>),
}

/// Decides what to do with the bytes of one TAP read. The device hands over
/// one whole Ethernet frame per read, so each non-empty read becomes one
/// length-prefixed frame; an empty read means the device closed.
pub fn on_tap_read(frame: &[u8]) -> (action: TapReadAction)
    requires
        frame@.len() <= MAX_FRAME,
    ensures
        frame@.len() == 0 <==> action is DeviceClosed,
        action matches TapReadAction::Send(bytes) ==> bytes@ == encode_frame_spec(frame@),
{
    if frame.len() == 0 {
        TapReadAction::DeviceClosed
    } else {
        TapReadAction::Send(encode_frame(frame))
    }
}

/// `a` followed by `b`, in a new vector.
fn concat_bytes(a: &[u8], b: &[u8]) -> (out: Vec<u8>)
    requires
        a@.len() + b@.len() <= usize::MAX,
    ensures
        out@ == a@ + b@,
{
    let mut out: Vec<u8> = Vec::with_capacity(a.len() + b.len());
    let mut i: usize = 0;
    while i < a.len()
        invariant
            i <= a@.len(),
            out@ =~= a@.subrange(0, i as int),
        decreases a@.len() - i,
    {
        out.push(a[i]);
        i = i + 1;
    }
    let mut j: usize = 0;
    while j < b.len()
        invariant
            j <= b@.len(),
            i == a@.len(),
            out@ =~= a@ + b@.subrange(0, j as int),
        decreases b@.len() - j,
    {
        out.push(b[j]);
        j = j + 1;
    }
    assert(b@.subrange(0, b@.len() as int) =~= b@);
    out
}

/// The bytes of `src` from `from` up to `to`, in a new vector.
fn copy_range(src: &Vec<u8>, from: usize, to: usize) -> (out: Vec<u8>)
    requires
        from <= to <= src@.len(),
    ensures
        out@ == src@.subrange(from as int, to as int),
{
    let mut out: Vec<u8> = Vec::with_capacity(to - from);
    let mut i: usize = from;
    while i < to
        invariant
            from <= i <= to,
            to <= src@.len(),
            out@ =~= src@.subrange(from as int, i as int),
        decreases to - i,
    {
        out.push(src[i]);
        i = i + 1;
    }
    out
}

/// What one call of [`FrameReassembler::push`] hands back.
pub struct Reassembled {
    /// Whole frames completed by the pushed bytes, in order.
    pub frames: Vec<Vec<u8>>,
    /// The stream met a header that no frame may have; nothing more will come.
    pub stopped: bool,
}

/// The receiving side of the tunnel: it takes the stream in chunks of any
/// size, cut anywhere, and hands out whole frames.
pub struct FrameReassembler {
    pending: Vec<u8>,
    stopped: bool,
    received: Ghost<Seq<u8>>,
    emitted: Ghost<Seq<Seq<u8>>>,
}

impl FrameReassembler {
    #[verifier::type_invariant]
    spec fn consistent(&self) -> bool {
        let d = decode(self.received@);
        &&& d.frames == self.emitted@
        &&& d.corrupt == self.stopped
        &&& !self.stopped ==> d.rest == self.pending@
        &&& self.stopped ==> self.pending@.len() == 0
    }

    /// Every byte pushed so far, in order.
    pub closed spec fn received(&self) -> Seq<u8> {
        self.received@
    }

    /// Every frame handed out so far, in order.
    pub closed spec fn emitted(&self) -> Seq<Seq<u8>> {
        self.emitted@
    }

    /// Whether the stream has met a header that no frame may have.
    pub closed spec fn is_stopped(&self) -> bool {
        self.stopped
    }

    /// A reassembler that has received nothing.
    pub fn new() -> (r: Self)
        ensures
            r.received() == Seq::<u8>::empty(),
            r.emitted() == Seq::<Seq<u8>>::empty(),
            !r.is_stopped(),
    {
        FrameReassembler {
            pending: Vec::new(),
            stopped: false,
            received: Ghost(Seq::empty()),
            emitted: Ghost(Seq::empty()),
        }
    }

    /// Whether the stream has met a header that no frame may have.
    pub fn stopped(&self) -> (b: bool)
        ensures
            b == self.is_stopped(),
    {
        self.stopped
    }

    /// Takes the next chunk of the stream and hands out the frames that it
    /// completes. Whatever the chunks, the frames handed out so far are
    /// exactly the frames that all bytes received so far decode to.
    pub fn push(&mut self, chunk: &[u8]) -> (out: Reassembled)
        requires
            chunk@.len() <= usize::MAX - HEADER_LEN - MAX_FRAME,
        ensures
            final(self).received() == old(self).received() + chunk@,
            final(self).emitted() == old(self).emitted() + frames_view(out.frames@),
            out.stopped == final(self).is_stopped(),
            decode(old(self).received()).frames == old(self).emitted(),
            decode(final(self).received()).frames == final(self).emitted(),
            decode(final(self).received()).corrupt == final(self).is_stopped(),
            old(self).is_stopped() ==> out.frames@.len() == 0 && final(self).is_stopped(),
    {
        proof {
            use_type_invariant(&*self);
            lemma_decode_concat(self.received@, chunk@);
        }
        let ghost old_received = self.received@;
        let ghost old_emitted = self.emitted@;
        if self.stopped {
            *self = FrameReassembler {
                pending: Vec::new(),
                stopped: true,
                received: Ghost(old_received + chunk@),
                emitted: Ghost(old_emitted),
            };
            return Reassembled { frames: Vec::new(), stopped: true };
        }
        proof {
            lemma_rest_is_short(old_received);
        }
        let buf = concat_bytes(self.pending.as_slice(), chunk);
        let ghost combined = buf@;
        let mut frames: Vec<Vec<u8>> = Vec::new();
        let mut pos: usize = 0;
        let mut corrupt = false;
        assert(combined.skip(0) =~= combined);
        assert(frames_view(frames@) + decode(combined).frames =~= decode(combined).frames);
        loop
            invariant_except_break
                !corrupt,
            invariant
                buf@ == combined,
                pos <= buf@.len(),
                decode(combined) == after_frames(frames_view(frames@), decode(combined.skip(pos as int))),
            ensures
                pos <= buf@.len(),
                decode(combined) == after_frames(frames_view(frames@), decode(combined.skip(pos as int))),
                decode(combined.skip(pos as int)).frames == Seq::<Seq<u8>>::empty(),
                decode(combined.skip(pos as int)).rest == combined.skip(pos as int),
                decode(combined.skip(pos as int)).corrupt == corrupt,
            decreases buf@.len() - pos,
        {
            let ghost here = combined.skip(pos as int);
            if buf.len() - pos < HEADER_LEN {
                break;
            }
            let n: u64 = (buf[pos] as u64) * 16777216 + (buf[pos + 1] as u64) * 65536
                + (buf[pos + 2] as u64) * 256 + (buf[pos + 3] as u64);
            assert(here[0] == buf@[pos as int] && here[1] == buf@[pos + 1] && here[2] == buf@[pos + 2]
                && here[3] == buf@[pos + 3]);
            assert(n as nat == header_value(here));
            if n == 0 || n > MAX_FRAME as u64 {
                corrupt = true;
                break;
            }
            let len = n as usize;
            if buf.len() - pos - HEADER_LEN < len {
                break;
            }
            let frame = copy_range(&buf, pos + HEADER_LEN, pos + HEADER_LEN + len);
            let ghost before = frames_view(frames@);
            assert(frame@ =~= here.subrange(4, 4 + len as int));
            assert(here.skip(4 + len as int) =~= combined.skip(pos + HEADER_LEN + len));
            frames.push(frame);
            assert(frames_view(frames@) =~= before.push(frame@));
            pos = pos + HEADER_LEN + len;
            let ghost after = decode(combined.skip(pos as int));
            assert(before + (seq![frame@] + after.frames) =~= frames_view(frames@) + after.frames);
        }
        let ghost d = decode(combined);
        assert(frames_view(frames@) + Seq::<Seq<u8>>::empty() =~= frames_view(frames@));
        if corrupt {
            *self = FrameReassembler {
                pending: Vec::new(),
                stopped: true,
                received: Ghost(old_received + chunk@),
                emitted: Ghost(old_emitted + frames_view(frames@)),
            };
        } else {
            let rest = copy_range(&buf, pos, buf.len());
            assert(rest@ =~= combined.skip(pos as int));
            *self = FrameReassembler {
                pending: rest,
                stopped: false,
                received: Ghost(old_received + chunk@),
                emitted: Ghost(old_emitted + frames_view(frames@)),
            };
        }
        Reassembled { frames, stopped: corrupt }
    }
}

} // verus!
