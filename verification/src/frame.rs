//! Length-prefixed frames: four bytes, least significant first, that say how many follow.
use vstd::prelude::*;
use vstd::string::*;
use crate::text::{group_views, views};

verus! {

broadcast use group_views;

/// The number that four bytes write, least significant first.
pub open spec fn le32(b: Seq<u8>) -> int {
    b[0] + b[1] * 0x100 + b[2] * 0x1_0000 + b[3] * 0x100_0000
}

/// Four bytes that write a number, least significant first.
pub open spec fn le32_bytes(n: u32) -> Seq<u8> {
    seq![
        (n % 0x100) as u8,
        (n / 0x100 % 0x100) as u8,
        (n / 0x1_0000 % 0x100) as u8,
        (n / 0x100_0000) as u8,
    ]
}

/// Reads a length prefix.
pub fn read_le32(b0: u8, b1: u8, b2: u8, b3: u8) -> (r: u32)
    ensures
        r == le32(seq![b0, b1, b2, b3]),
{
    b0 as u32 + b1 as u32 * 0x100 + b2 as u32 * 0x1_0000 + b3 as u32 * 0x100_0000
}

/// Writes a length prefix behind `out`.
pub fn push_le32(out: &mut Vec<u8>, n: u32)
    ensures
        final(out)@ == old(out)@ + le32_bytes(n),
{
    out.push((n % 0x100) as u8);
    out.push((n / 0x100 % 0x100) as u8);
    out.push((n / 0x1_0000 % 0x100) as u8);
    out.push((n / 0x100_0000) as u8);
    assert(out@ =~= old(out)@ + le32_bytes(n));
}

/// A prefix reads back as the length that was written.
pub proof fn law_prefix_reads_back(n: u32)
    ensures
        le32(le32_bytes(n)) == n,
{
    let b = le32_bytes(n);
    assert(b[0] as int == n % 0x100);
    assert(b[1] as int == n / 0x100 % 0x100);
    assert(b[2] as int == n / 0x1_0000 % 0x100);
    assert(b[3] as int == n / 0x100_0000);
}

/// A frame around a payload.
pub open spec fn framed(payload: Seq<u8>) -> Seq<u8> {
    le32_bytes(payload.len() as u32) + payload
}

/// What the bytes of a stream begin with.
pub enum Split {
    /// A whole frame: its payload, and how many bytes the frame takes.
    Frame { payload: Vec<u8>, taken: usize },
    /// Not a whole frame yet.
    Partial,
    /// A frame that declares more bytes than are allowed.
    Oversized { declared: u32 },
}

/// Whether the stream begins with a frame over the limit.
pub open spec fn begins_oversized(b: Seq<u8>, max: nat) -> bool {
    b.len() >= 4 && le32(b) > max
}

/// Whether the stream begins with a whole frame within the limit.
pub open spec fn begins_whole(b: Seq<u8>, max: nat) -> bool {
    b.len() >= 4 && le32(b) <= max && b.len() >= 4 + le32(b)
}

fn copy_bytes(b: &Vec<u8>, from: usize, to: usize) -> (r: Vec<u8>)
    requires
        from <= to <= b@.len(),
    ensures
        r@ == b@.subrange(from as int, to as int),
{
    let mut out: Vec<u8> = Vec::new();
    let mut i: usize = from;
    while i < to
        invariant
            from <= i <= to <= b@.len(),
            out@ == b@.subrange(from as int, i as int),
        decreases to - i,
    {
        out.push(b[i]);
        i += 1;
        assert(b@.subrange(from as int, i as int) =~= b@.subrange(from as int, i as int - 1).push(
            b@[i as int - 1],
        ));
    }
    out
}

/// Splits the first frame off a stream's bytes, from position `from` on.
pub fn split_frame_capped(b: &Vec<u8>, from: usize, max: usize) -> (r: Split)
    requires
        from <= b@.len(),
    ensures
        ({
            let s = b@.skip(from as int);
            match r {
                Split::Frame { payload, taken } => begins_whole(s, max as nat) && payload@
                    == s.subrange(4, 4 + le32(s)) && taken == 4 + le32(s),
                Split::Partial => !begins_whole(s, max as nat) && !begins_oversized(s, max as nat),
                Split::Oversized { declared } => begins_oversized(s, max as nat) && declared == le32(
                    s,
                ),
            }
        }),
{
    let have: usize = b.len() - from;
    if have < 4 {
        return Split::Partial;
    }
    let ghost s = b@.skip(from as int);
    let len = read_le32(b[from], b[from + 1], b[from + 2], b[from + 3]);
    assert(len == le32(s));
    if len as u64 > max as u64 {
        return Split::Oversized { declared: len };
    }
    if (have - 4) as u64 >= len as u64 {
        let n: usize = len as usize;
        let payload = copy_bytes(b, from + 4, from + 4 + n);
        assert(payload@ =~= s.subrange(4, 4 + len as int));
        Split::Frame { payload, taken: 4 + n }
    } else {
        Split::Partial
    }
}

/// All the frames that a stream begins with: their payloads, what is left behind them, and
/// whether what is left begins with a frame over the limit.
pub open spec fn all_frames(b: Seq<u8>, max: nat) -> (Seq<Seq<u8>>, Seq<u8>)
    decreases b.len(),
{
    if begins_whole(b, max) {
        let rest = all_frames(b.skip(4 + le32(b)), max);
        (seq![b.subrange(4, 4 + le32(b))] + rest.0, rest.1)
    } else {
        (Seq::empty(), b)
    }
}

/// Bytes of a stream that are not a whole frame yet.
pub struct FrameBuffer {
    pending: Vec<u8>,
}

impl View for FrameBuffer {
    type V = Seq<u8>;

    closed spec fn view(&self) -> Seq<u8> {
        self.pending@
    }
}

impl FrameBuffer {
    pub fn new() -> (r: Self)
        ensures
            r@ == Seq::<u8>::empty(),
    {
        FrameBuffer { pending: Vec::new() }
    }

    /// Takes in what was read from a stream and hands out the frames that are whole now. An
    /// error says that the stream cannot be read on: it declares a frame of that many bytes.
    pub fn feed(&mut self, chunk: &Vec<u8>, max: usize) -> (r: (Vec<Vec<u8>>, Option<u32>))
        ensures
            ({
                let all = all_frames(old(self)@ + chunk@, max as nat);
                &&& views(r.0@) == all.0
                &&& final(self)@ == all.1
                &&& r.1 is Some <==> begins_oversized(all.1, max as nat)
                &&& r.1 is Some ==> r.1->0 == le32(all.1)
            }),
    {
        let mut bytes: Vec<u8> = Vec::new();
        bytes.append(&mut self.pending);
        let mut more: Vec<u8> = copy_bytes(chunk, 0, chunk.len());
        assert(more@ =~= chunk@);
        bytes.append(&mut more);
        let ghost whole = old(self)@ + chunk@;
        assert(bytes@ =~= whole);
        let total: usize = bytes.len();
        let mut frames: Vec<Vec<u8>> = Vec::new();
        let mut from: usize = 0;
        let mut error: Option<u32> = None;
        assert(whole.skip(0) =~= whole);
        assert(views(frames@) + all_frames(whole, max as nat).0 =~= all_frames(whole, max as nat).0);
        loop
            invariant_except_break
                bytes@ == whole,
                from <= whole.len() == total,
                views(frames@) + all_frames(whole.skip(from as int), max as nat).0 == all_frames(
                    whole,
                    max as nat,
                ).0,
                all_frames(whole.skip(from as int), max as nat).1 == all_frames(
                    whole,
                    max as nat,
                ).1,
                error is None,
            ensures
                bytes@ == whole,
                from <= whole.len() == total,
                views(frames@) == all_frames(whole, max as nat).0,
                whole.skip(from as int) == all_frames(whole, max as nat).1,
                error is Some <==> begins_oversized(whole.skip(from as int), max as nat),
                error is Some ==> error->0 == le32(whole.skip(from as int)),
            decreases whole.len() - from,
        {
            let ghost rest = whole.skip(from as int);
            match split_frame_capped(&bytes, from, max) {
                Split::Frame { payload, taken } => {
                    let ghost before = views(frames@);
                    let ghost p = payload@;
                    frames.push(payload);
                    proof {
                        assert(rest.skip(taken as int) =~= whole.skip(from + taken));
                        assert(views(frames@) =~= before.push(p));
                        assert(before.push(p) + all_frames(
                            whole.skip(from + taken),
                            max as nat,
                        ).0 =~= before + all_frames(rest, max as nat).0);
                    }
                    from = from + taken;
                },
                Split::Partial => {
                    assert(views(frames@) + Seq::<Seq<u8>>::empty() =~= views(frames@));
                    break ;
                },
                Split::Oversized { declared } => {
                    assert(views(frames@) + Seq::<Seq<u8>>::empty() =~= views(frames@));
                    error = Some(declared);
                    break ;
                },
            }
        }
        self.pending = copy_bytes(&bytes, from, total);
        assert(self.pending@ =~= whole.skip(from as int));
        (frames, error)
    }
}

/// Reading a stream gives back the payload that was framed, however the stream goes on.
pub proof fn law_frames_read_back(payload: Seq<u8>, rest: Seq<u8>, max: nat)
    requires
        payload.len() <= max,
        payload.len() <= u32::MAX,
    ensures
        all_frames(framed(payload) + rest, max).0 == seq![payload] + all_frames(rest, max).0,
        all_frames(framed(payload) + rest, max).1 == all_frames(rest, max).1,
{
    let b = framed(payload) + rest;
    let n = payload.len() as u32;
    law_prefix_reads_back(n);
    assert(b[0] == le32_bytes(n)[0] && b[1] == le32_bytes(n)[1] && b[2] == le32_bytes(n)[2] && b[3]
        == le32_bytes(n)[3]);
    assert(le32(b) == payload.len());
    assert(b.subrange(4, 4 + payload.len() as int) =~= payload);
    assert(b.skip(4 + payload.len() as int) =~= rest);
}

pub const OVERSIZED: &'static str = "peer sent an oversized frame";

pub const CLOSED_MID_FRAME: &'static str = "peer closed mid-frame";

/// The most that one step of reading a frame asks for. Memory follows what arrives and not what
/// a prefix declares.
pub const FRAME_STEP: usize = 16 * 1024;

/// How many bytes follow a prefix, where that many are allowed.
pub fn frame_len(b0: u8, b1: u8, b2: u8, b3: u8, max: usize) -> (r: Result<usize, String>)
    ensures
        match r {
            Ok(n) => n == le32(seq![b0, b1, b2, b3]) && n <= max,
            Err(e) => le32(seq![b0, b1, b2, b3]) > max && e@ == OVERSIZED@,
        },
{
    let len = read_le32(b0, b1, b2, b3);
    if len as u64 > max as u64 {
        Err(OVERSIZED.to_owned())
    } else {
        Ok(len as usize)
    }
}

/// A payload that is read step by step, and no byte further: what follows it on the connection
/// may be no frame.
pub struct PayloadRead {
    declared: usize,
    payload: Vec<u8>,
}

/// A payload on its way, in terms of what it stands for.
pub struct PayloadModel {
    /// How many bytes it has in the end.
    pub declared: nat,
    /// What has arrived of it.
    pub payload: Seq<u8>,
}

impl View for PayloadRead {
    type V = PayloadModel;

    closed spec fn view(&self) -> PayloadModel {
        PayloadModel { declared: self.declared as nat, payload: self.payload@ }
    }
}

/// How many bytes the next step asks for: a step's worth, or what is missing where that is less.
pub open spec fn payload_step(m: PayloadModel) -> int {
    if m.declared - m.payload.len() < FRAME_STEP {
        m.declared - m.payload.len()
    } else {
        FRAME_STEP as int
    }
}

impl PayloadRead {
    /// No more has arrived than was declared.
    pub open spec fn wf(&self) -> bool {
        self@.payload.len() <= self@.declared
    }

    /// A payload of `declared` bytes, none of which has arrived.
    pub fn new(declared: usize) -> (r: PayloadRead)
        ensures
            r.wf(),
            r@ == (PayloadModel { declared: declared as nat, payload: Seq::empty() }),
    {
        PayloadRead { declared, payload: Vec::new() }
    }

    /// How many bytes to ask for next; 0 when the payload is whole.
    pub fn want(&self) -> (n: usize)
        requires
            self.wf(),
        ensures
            n == payload_step(self@),
            n == 0 <==> self@.payload.len() == self@.declared,
            n <= FRAME_STEP,
    {
        let missing: usize = self.declared - self.payload.len();
        if missing < FRAME_STEP {
            missing
        } else {
            FRAME_STEP
        }
    }

    /// Bytes arrived; none means that the peer is gone.
    pub fn got(&mut self, chunk: Vec<u8>) -> (r: Result<(), String>)
        requires
            old(self).wf(),
            chunk@.len() <= payload_step(old(self)@),
        ensures
            final(self).wf(),
            match r {
                Ok(()) => chunk@.len() > 0 && final(self)@ == (PayloadModel {
                    payload: old(self)@.payload + chunk@,
                    ..old(self)@
                }),
                Err(e) => chunk@.len() == 0 && e@ == CLOSED_MID_FRAME@ && final(self)@ == old(
                    self,
                )@,
            },
    {
        if chunk.len() == 0 {
            return Err(CLOSED_MID_FRAME.to_owned());
        }
        let mut chunk = chunk;
        self.payload.append(&mut chunk);
        Ok(())
    }

    /// What has arrived.
    pub fn into_payload(self) -> (payload: Vec<u8>)
        ensures
            payload@ == self@.payload,
    {
        self.payload
    }
}

/// Whatever each step brings, a payload is read to its end and never past it.
pub proof fn law_payloads_are_read_exactly(m: PayloadModel, chunk: Seq<u8>)
    requires
        m.payload.len() <= m.declared,
        0 < chunk.len() <= payload_step(m),
    ensures
        m.payload.len() < (m.payload + chunk).len() <= m.declared,
{
}

/// Frames are told apart the same however the stream is cut into pieces: what a first piece leaves
/// over is read on with the next.
pub proof fn law_pieces_make_one_stream(a: Seq<u8>, b: Seq<u8>, max: nat)
    ensures
        all_frames(a + b, max).0 == all_frames(a, max).0 + all_frames(
            all_frames(a, max).1 + b,
            max,
        ).0,
        all_frames(a + b, max).1 == all_frames(all_frames(a, max).1 + b, max).1,
    decreases a.len(),
{
    if begins_whole(a, max) {
        let n = 4 + le32(a);
        assert(le32(a + b) == le32(a));
        law_pieces_make_one_stream(a.skip(n), b, max);
        assert((a + b).skip(n) =~= a.skip(n) + b);
        assert((a + b).subrange(4, n) =~= a.subrange(4, n));
        assert(all_frames(a + b, max).0 =~= all_frames(a, max).0 + all_frames(
            all_frames(a, max).1 + b,
            max,
        ).0);
    } else {
        assert(all_frames(a, max).0 + all_frames(a + b, max).0 =~= all_frames(a + b, max).0);
    }
}

/// Numbers are written with the least significant byte first: 256 times a number is a zero and the
/// number.
pub proof fn law_the_least_byte_comes_first(n: u32, low: u8)
    requires
        n < 0x100_0000,
    ensures
        le32_bytes(low as u32) == seq![low, 0u8, 0u8, 0u8],
        le32_bytes((n * 0x100 + low) as u32) == seq![low] + le32_bytes(n).take(3),
{
    let m = (n * 0x100 + low) as u32;
    assert(m % 0x100 == low);
    assert(m / 0x100 == n);
    assert(m / 0x1_0000 == n / 0x100);
    assert(m / 0x100_0000 == n / 0x1_0000);
    assert(n / 0x1_0000 < 0x100);
    assert(le32_bytes(m) =~= seq![low] + le32_bytes(n).take(3));
    assert(le32_bytes(low as u32) =~= seq![low, 0u8, 0u8, 0u8]);
}

/// A frame is too large if and only if it declares more bytes than are allowed, and is whole if and
/// only if it declares no more and all of them are there.
pub proof fn law_frames_are_judged_by_what_they_declare(n: u32, rest: Seq<u8>, max: nat)
    ensures
        begins_oversized(le32_bytes(n) + rest, max) <==> n > max,
        begins_whole(le32_bytes(n) + rest, max) <==> n <= max && rest.len() >= n,
{
    law_prefix_reads_back(n);
    let b = le32_bytes(n) + rest;
    assert(b[0] == le32_bytes(n)[0] && b[1] == le32_bytes(n)[1] && b[2] == le32_bytes(n)[2] && b[3]
        == le32_bytes(n)[3]);
}

} // verus!
