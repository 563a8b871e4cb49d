//! Splitting of encoded video frames into data-channel messages, and putting them together again.
//!
//! A message is an eight-byte header and a piece of the frame. The header holds the frame's
//! sequence number (four bytes), the piece's index (two bytes) and the number of pieces (two
//! bytes), all big-endian.

use crate::bytes;
use vstd::prelude::*;

verus! {

/// The largest piece of a frame in one message, in bytes.
pub const DEFAULT_MAX_PAYLOAD: usize = 16 * 1024;

/// The length of a message's header.
pub const HEADER: usize = 8;

/// The frame cut into consecutive pieces of `limit` bytes; the last may be shorter. An empty
/// frame is one empty piece.
pub open spec fn pieces(frame: Seq<u8>, limit: nat) -> Seq<Seq<u8>>
    decreases frame.len(),
{
    if limit == 0 || frame.len() <= limit {
        seq![frame]
    } else {
        seq![frame.take(limit as int)] + pieces(frame.skip(limit as int), limit)
    }
}

/// The message that carries piece `idx` of the `count` pieces of frame `seq`. Index and count
/// are kept modulo 2^16.
pub open spec fn message(seq: u32, idx: nat, count: nat, piece: Seq<u8>) -> Seq<u8> {
    bytes::be_bytes(seq as nat, 4) + bytes::be_bytes(idx % 0x1_0000, 2) + bytes::be_bytes(
        count % 0x1_0000,
        2,
    ) + piece
}

/// All messages of frame `seq`, in order.
pub open spec fn messages(seq: u32, frame: Seq<u8>, limit: nat) -> Seq<Seq<u8>> {
    let p = pieces(frame, limit);
    Seq::new(p.len(), |i: int| message(seq, i as nat, p.len(), p[i]))
}

/// The contents of a list of byte vectors.
pub open spec fn contents(v: Seq<Vec<u8>>) -> Seq<Seq<u8>> {
    v.map_values(|b: Vec<u8>| b@)
}

/// Cuts frames into messages and numbers the frames.
pub struct Chunker {
    seq: u32,
    max_payload: usize,
}

impl Chunker {
    #[verifier::type_invariant]
    spec fn inv(self) -> bool {
        self.max_payload >= 1
    }

    /// The number that the next frame gets.
    pub closed spec fn next_seq(&self) -> u32 {
        self.seq
    }

    /// The largest piece in bytes.
    pub closed spec fn limit(&self) -> nat {
        self.max_payload as nat
    }

    /// A chunker whose pieces hold at most `max_payload` bytes, at least one.
    pub fn new(max_payload: usize) -> (c: Chunker)
        ensures
            c.next_seq() == 0,
            c.limit() == (if max_payload == 0 { 1 } else { max_payload as nat }),
    {
        Chunker { seq: 0, max_payload: if max_payload == 0 { 1 } else { max_payload } }
    }

    /// The messages of the next frame.
    pub fn chunk(&mut self, frame: &[u8]) -> (out: Vec<Vec<u8>>)
        ensures
            contents(out@) == messages(old(self).next_seq(), frame@, old(self).limit()),
            final(self).next_seq() == seq_after(old(self).next_seq()),
            final(self).limit() == old(self).limit(),
    {
        proof {
            use_type_invariant(&*self);
        }
        let seq: u32 = self.seq;
        let limit: usize = self.max_payload;
        self.seq = if seq == u32::MAX { 0 } else { seq + 1 };
        let count: usize = count_pieces(frame, limit);
        let mut out: Vec<Vec<u8>> = Vec::new();
        let mut start: usize = 0;
        let mut idx: usize = 0;
        let ghost p = pieces(frame@, limit as nat);
        proof {
            assert(frame@.skip(0) =~= frame@);
            assert(p.skip(0) =~= p);
        }
        while idx < count
            invariant
                limit >= 1,
                p == pieces(frame@, limit as nat),
                count == p.len(),
                idx <= count,
                start <= frame@.len(),
                idx < count ==> pieces(frame@.skip(start as int), limit as nat) == p.skip(
                    idx as int,
                ),
                contents(out@) =~= messages(seq, frame@, limit as nat).take(idx as int),
            decreases count - idx,
        {
            let left: usize = frame.len() - start;
            let end: usize = if left <= limit { frame.len() } else { start + limit };
            let ghost rest = frame@.skip(start as int);
            let mut msg: Vec<u8> = Vec::new();
            bytes::push_be32(&mut msg, seq);
            bytes::push_be16(&mut msg, (idx % 0x1_0000) as u16);
            bytes::push_be16(&mut msg, (count % 0x1_0000) as u16);
            let body: Vec<u8> = bytes::copy_range(frame, start, end);
            bytes::append_slice(&mut msg, body.as_slice());
            proof {
                assert(p.skip(idx as int)[0] == p[idx as int]);
                if rest.len() <= limit {
                    assert(body@ =~= rest);
                    assert(p.skip(idx as int).len() == 1);
                } else {
                    assert(body@ =~= rest.take(limit as int));
                    assert(rest.skip(limit as int) =~= frame@.skip(end as int));
                    assert(p.skip(idx + 1) =~= p.skip(idx as int).skip(1));
                    assert(p.skip(idx as int).skip(1) =~= pieces(
                        frame@.skip(end as int),
                        limit as nat,
                    ));
                }
                assert(body@ == p[idx as int]);
                assert(msg@ =~= message(seq, idx as nat, count as nat, p[idx as int]));
            }
            let ghost before = out@;
            out.push(msg);
            start = end;
            idx += 1;
            proof {
                assert(contents(out@) =~= contents(before).push(msg@));
                assert(messages(seq, frame@, limit as nat).take(idx as int) =~= messages(
                    seq,
                    frame@,
                    limit as nat,
                ).take(idx - 1).push(msg@));
            }
        }
        proof {
            assert(messages(seq, frame@, limit as nat).take(idx as int) =~= messages(
                seq,
                frame@,
                limit as nat,
            ));
        }
        out
    }
}

/// How many pieces of `limit` bytes the frame has.
fn count_pieces(frame: &[u8], limit: usize) -> (n: usize)
    requires
        limit >= 1,
    ensures
        n == pieces(frame@, limit as nat).len(),
{
    let mut left: usize = frame.len();
    let mut n: usize = 1;
    proof {
        assert(frame@.skip(0) =~= frame@);
    }
    while left > limit
        invariant
            limit >= 1,
            left <= frame@.len(),
            n >= 1,
            n - 1 + left <= frame@.len(),
            frame@.len() <= usize::MAX,
            n - 1 + pieces(frame@.skip(frame@.len() - left), limit as nat).len() == pieces(
                frame@,
                limit as nat,
            ).len(),
        decreases left,
    {
        let ghost rest = frame@.skip(frame@.len() - left);
        left -= limit;
        n += 1;
        proof {
            assert(rest.skip(limit as int) =~= frame@.skip(frame@.len() - left));
        }
    }
    n
}

/// What a reassembler remembers between messages.
pub struct Assembly {
    /// The frame being put together, if any.
    pub seq: Option<u32>,
    /// How many pieces it has.
    pub count: nat,
    /// How many pieces have come.
    pub got: nat,
    /// The bytes of the pieces that have come.
    pub buf: Seq<u8>,
}

/// The state after `msg`, and the frame that `msg` completes. A message too short for a header
/// is ignored; index zero starts a new frame; a message of another frame is ignored.
pub open spec fn receive(a: Assembly, msg: Seq<u8>) -> (Assembly, Option<Seq<u8>>) {
    if msg.len() < HEADER {
        (a, None)
    } else {
        let seq = bytes::be_value(msg.subrange(0, 4)) as u32;
        let idx = bytes::be_value(msg.subrange(4, 6));
        let count = bytes::be_value(msg.subrange(6, 8));
        let b = if idx == 0 {
            Assembly { seq: Some(seq), count, got: 0, buf: Seq::empty() }
        } else {
            a
        };
        if b.seq != Some(seq) {
            (b, None)
        } else {
            let got = b.got + 1;
            let buf = b.buf + msg.skip(HEADER as int);
            if got >= b.count {
                (Assembly { seq: None, count: b.count, got, buf: Seq::empty() }, Some(buf))
            } else {
                (Assembly { seq: b.seq, count: b.count, got, buf }, None)
            }
        }
    }
}

/// The state after all of `msgs`, and the frames completed on the way.
pub open spec fn receive_all(a: Assembly, msgs: Seq<Seq<u8>>) -> (Assembly, Seq<Seq<u8>>)
    decreases msgs.len(),
{
    if msgs.len() == 0 {
        (a, Seq::empty())
    } else {
        let (b, frames) = receive_all(a, msgs.drop_last());
        let (c, done) = receive(b, msgs.last());
        (
            c,
            match done {
                Some(f) => frames.push(f),
                None => frames,
            },
        )
    }
}

/// Puts messages together to frames, for a channel that keeps their order.
pub struct Reassembler {
    seq: Option<u32>,
    count: u16,
    got: u16,
    buf: Vec<u8>,
}

impl View for Reassembler {
    type V = Assembly;

    closed spec fn view(&self) -> Assembly {
        Assembly {
            seq: self.seq,
            count: self.count as nat,
            got: self.got as nat,
            buf: self.buf@,
        }
    }
}

impl Default for Reassembler {
    fn default() -> (r: Reassembler)
        ensures
            r@ == (Assembly { seq: None, count: 0, got: 0, buf: Seq::empty() }),
    {
        Reassembler::new()
    }
}

impl Reassembler {
    #[verifier::type_invariant]
    spec fn inv(self) -> bool {
        self.seq is Some ==> self.got < self.count
    }

    pub fn new() -> (r: Reassembler)
        ensures
            r@ == (Assembly { seq: None, count: 0, got: 0, buf: Seq::empty() }),
    {
        Reassembler { seq: None, count: 0, got: 0, buf: Vec::new() }
    }

    /// Takes one message; gives the frame that it completes.
    pub fn push(&mut self, msg: &[u8]) -> (frame: Option<Vec<u8>>)
        ensures
            final(self)@ == receive(old(self)@, msg@).0,
            match frame {
                Some(f) => receive(old(self)@, msg@).1 == Some(f@),
                None => receive(old(self)@, msg@).1 is None,
            },
    {
        proof {
            use_type_invariant(&*self);
        }
        if msg.len() < HEADER {
            return None;
        }
        let seq: u32 = bytes::read_be32(msg, 0);
        let idx: u16 = bytes::read_be16(msg, 4);
        let count: u16 = bytes::read_be16(msg, 6);
        let piece: Vec<u8> = bytes::copy_range(msg, HEADER, msg.len());
        proof {
            assert(piece@ =~= msg@.skip(HEADER as int));
        }
        let mut buf: Vec<u8> = Vec::new();
        let mut cur: Option<u32> = Some(seq);
        let mut total: u16 = count;
        let mut got: u16 = 0;
        if idx != 0 {
            std::mem::swap(&mut buf, &mut self.buf);
            cur = self.seq;
            total = self.count;
            got = self.got;
        }
        let current: bool = match cur {
            Some(n) => n == seq,
            None => false,
        };
        if !current {
            *self = Reassembler { seq: cur, count: total, got, buf };
            return None;
        }
        bytes::append_slice(&mut buf, piece.as_slice());
        got += 1;
        if got >= total {
            *self = Reassembler { seq: None, count: total, got, buf: Vec::new() };
            return Some(buf);
        }
        *self = Reassembler { seq: cur, count: total, got, buf };
        None
    }
}

/// The pieces one after the other.
pub open spec fn join(p: Seq<Seq<u8>>) -> Seq<u8>
    decreases p.len(),
{
    if p.len() == 0 {
        Seq::empty()
    } else {
        join(p.drop_last()) + p.last()
    }
}

proof fn lemma_join_front(first: Seq<u8>, rest: Seq<Seq<u8>>)
    ensures
        join(seq![first] + rest) == first + join(rest),
    decreases rest.len(),
{
    reveal_with_fuel(join, 2);
    let all = seq![first] + rest;
    if rest.len() == 0 {
        assert(all.drop_last() =~= Seq::<Seq<u8>>::empty());
        assert(join(all) =~= first + join(rest));
    } else {
        lemma_join_front(first, rest.drop_last());
        assert(all.drop_last() =~= seq![first] + rest.drop_last());
        assert(join(all) =~= first + join(rest));
    }
}

/// The pieces of a frame, joined, are the frame; each but the last has exactly `limit` bytes.
pub proof fn law_pieces_cover(frame: Seq<u8>, limit: nat)
    requires
        limit >= 1,
    ensures
        join(pieces(frame, limit)) == frame,
        pieces(frame, limit).len() >= 1,
        forall|i: int|
            0 <= i < pieces(frame, limit).len() ==> (#[trigger] pieces(frame, limit)[i]).len()
                <= limit,
        forall|i: int|
            0 <= i < pieces(frame, limit).len() - 1 ==> (#[trigger] pieces(frame, limit)[i]).len()
                == limit,
    decreases frame.len(),
{
    if frame.len() <= limit {
        reveal_with_fuel(join, 2);
        assert(seq![frame].drop_last() =~= Seq::<Seq<u8>>::empty());
        assert(join(seq![frame]) =~= frame);
    } else {
        let rest = frame.skip(limit as int);
        law_pieces_cover(rest, limit);
        lemma_join_front(frame.take(limit as int), pieces(rest, limit));
        assert(frame.take(limit as int) + rest =~= frame);
        let p = pieces(frame, limit);
        assert forall|i: int| 0 < i < p.len() implies #[trigger] p[i] == pieces(rest, limit)[i
            - 1] by {}
    }
}

proof fn lemma_message_fields(seq: u32, idx: nat, count: nat, piece: Seq<u8>)
    requires
        idx < 0x1_0000,
        count < 0x1_0000,
    ensures
        ({
            let m = message(seq, idx, count, piece);
            &&& m.len() >= HEADER
            &&& bytes::be_value(m.subrange(0, 4)) == seq
            &&& bytes::be_value(m.subrange(4, 6)) == idx
            &&& bytes::be_value(m.subrange(6, 8)) == count
            &&& m.skip(HEADER as int) == piece
        }),
{
    let m = message(seq, idx, count, piece);
    bytes::lemma_pow256();
    bytes::lemma_be_roundtrip(seq as nat, 4);
    bytes::lemma_be_roundtrip(idx, 2);
    bytes::lemma_be_roundtrip(count, 2);
    assert(m.subrange(0, 4) =~= bytes::be_bytes(seq as nat, 4));
    assert(m.subrange(4, 6) =~= bytes::be_bytes(idx, 2));
    assert(m.subrange(6, 8) =~= bytes::be_bytes(count, 2));
    assert(m.skip(8) =~= piece);
}

proof fn lemma_receive_prefix(a: Assembly, seq: u32, frame: Seq<u8>, limit: nat, k: nat)
    requires
        limit >= 1,
        pieces(frame, limit).len() < 0x1_0000,
        1 <= k < pieces(frame, limit).len(),
    ensures
        receive_all(a, messages(seq, frame, limit).take(k as int)) == (
            Assembly {
                seq: Some(seq),
                count: pieces(frame, limit).len(),
                got: k,
                buf: join(pieces(frame, limit).take(k as int)),
            },
            Seq::<Seq<u8>>::empty(),
        ),
    decreases k,
{
    let p = pieces(frame, limit);
    let m = messages(seq, frame, limit);
    let part = m.take(k as int);
    assert(part.drop_last() =~= m.take(k - 1));
    assert(part.last() == m[k - 1]);
    assert(p.take(k as int).drop_last() =~= p.take(k - 1));
    assert(p.take(k as int).last() == p[k - 1]);
    lemma_message_fields(seq, (k - 1) as nat, p.len(), p[k - 1]);
    if k == 1 {
        reveal_with_fuel(join, 2);
        reveal_with_fuel(receive_all, 2);
        assert(m.take(0) =~= Seq::<Seq<u8>>::empty());
        assert(p.take(0) =~= Seq::<Seq<u8>>::empty());
        assert(join(p.take(1)) =~= p[0]);
        assert(Seq::<u8>::empty() + p[0] =~= p[0]);
    } else {
        lemma_receive_prefix(a, seq, frame, limit, (k - 1) as nat);
    }
}

/// Whatever came before, the messages of one frame, received in order, give back exactly that
/// frame, and leave no frame begun. This holds of every frame of at most 65535 pieces.
pub proof fn law_frame_roundtrip(a: Assembly, seq: u32, frame: Seq<u8>, limit: nat)
    requires
        limit >= 1,
        pieces(frame, limit).len() < 0x1_0000,
    ensures
        receive_all(a, messages(seq, frame, limit)).1 == seq![frame],
        receive_all(a, messages(seq, frame, limit)).0.seq is None,
{
    let p = pieces(frame, limit);
    let m = messages(seq, frame, limit);
    let n = p.len();
    law_pieces_cover(frame, limit);
    assert(m.drop_last() =~= m.take(n - 1));
    assert(p.drop_last() =~= p.take(n - 1));
    lemma_message_fields(seq, (n - 1) as nat, n, p[n - 1]);
    if n == 1 {
        reveal_with_fuel(join, 2);
        reveal_with_fuel(receive_all, 2);
        assert(m.take(0) =~= Seq::<Seq<u8>>::empty());
        assert(p.take(0) =~= Seq::<Seq<u8>>::empty());
        assert(join(p) =~= p[0]);
        assert(Seq::<u8>::empty() + p[0] =~= p[0]);
    } else {
        lemma_receive_prefix(a, seq, frame, limit, (n - 1) as nat);
    }
    assert(receive_all(a, m).1 =~= seq![frame]);
}

/// The sequence number after `seq`.
pub open spec fn seq_after(seq: u32) -> u32 {
    if seq == u32::MAX {
        0
    } else {
        (seq + 1) as u32
    }
}

/// The messages of several frames, numbered from `seq` on.
pub open spec fn stream(seq: u32, frames: Seq<Seq<u8>>, limit: nat) -> Seq<Seq<u8>>
    decreases frames.len(),
{
    if frames.len() == 0 {
        Seq::empty()
    } else {
        messages(seq, frames[0], limit) + stream(seq_after(seq), frames.skip(1), limit)
    }
}

proof fn lemma_receive_append(a: Assembly, x: Seq<Seq<u8>>, y: Seq<Seq<u8>>)
    ensures
        receive_all(a, x + y).0 == receive_all(receive_all(a, x).0, y).0,
        receive_all(a, x + y).1 == receive_all(a, x).1 + receive_all(receive_all(a, x).0, y).1,
    decreases y.len(),
{
    if y.len() == 0 {
        assert(x + y =~= x);
        assert(receive_all(a, x).1 + Seq::<Seq<u8>>::empty() =~= receive_all(a, x).1);
    } else {
        lemma_receive_append(a, x, y.drop_last());
        assert((x + y).drop_last() =~= x + y.drop_last());
        assert(receive_all(a, x + y).1 =~= receive_all(a, x).1 + receive_all(
            receive_all(a, x).0,
            y,
        ).1);
    }
}

/// Frames sent one after the other over a channel that keeps order come out complete and in
/// order, each of at most 65535 pieces.
pub proof fn law_stream_roundtrip(a: Assembly, seq: u32, frames: Seq<Seq<u8>>, limit: nat)
    requires
        limit >= 1,
        forall|i: int|
            0 <= i < frames.len() ==> pieces(#[trigger] frames[i], limit).len() < 0x1_0000,
    ensures
        receive_all(a, stream(seq, frames, limit)).1 == frames,
    decreases frames.len(),
{
    if frames.len() == 0 {
        assert(receive_all(a, stream(seq, frames, limit)).1 =~= frames);
    } else {
        let m = messages(seq, frames[0], limit);
        let rest = stream(seq_after(seq), frames.skip(1), limit);
        law_frame_roundtrip(a, seq, frames[0], limit);
        lemma_receive_append(a, m, rest);
        assert forall|i: int| 0 <= i < frames.skip(1).len() implies pieces(
            #[trigger] frames.skip(1)[i],
            limit,
        ).len() < 0x1_0000 by {
            assert(frames.skip(1)[i] == frames[i + 1]);
        }
        law_stream_roundtrip(receive_all(a, m).0, seq_after(seq), frames.skip(1), limit);
        assert(seq![frames[0]] + frames.skip(1) =~= frames);
    }
}

/// A frame of at most `n` times `limit` bytes has at most `n` pieces.
pub proof fn lemma_pieces_count(frame: Seq<u8>, limit: nat, n: nat)
    requires
        limit >= 1,
        n >= 1,
        frame.len() <= n * limit,
    ensures
        pieces(frame, limit).len() <= n,
    decreases n,
{
    if frame.len() > limit {
        assert(n >= 2) by (nonlinear_arith)
            requires
                frame.len() > limit,
                frame.len() <= n * limit,
        ;
        assert((n - 1) * limit == n * limit - limit) by (nonlinear_arith);
        lemma_pieces_count(frame.skip(limit as int), limit, (n - 1) as nat);
    }
}

/// What is no piece of the frame at hand changes nothing and completes nothing: a message too short
/// for a header, and a later piece of another frame. The first piece of any frame begins that frame
/// anew.
pub proof fn law_strays_are_passed_over(
    r: &mut Reassembler,
    msg: &[u8],
    frame: Option<Vec<u8>>,
    seq: u32,
    idx: nat,
    count: nat,
    piece: Seq<u8>,
)
    requires
        call_ensures(Reassembler::push, (r, msg), frame),
        idx < 0x1_0000,
        count < 0x1_0000,
    ensures
        msg@.len() < 8 ==> frame is None && final(r)@ == old(r)@,
        msg@ == message(seq, idx, count, piece) && idx > 0 && old(r)@.seq != Some(seq) ==> frame is None
            && final(r)@ == old(r)@,
        msg@ == message(seq, 0, count, piece) && count <= 1 ==> frame is Some && (frame->0)@ == piece,
        msg@ == message(seq, 0, count, piece) && count > 1 ==> frame is None && final(r)@.seq == Some(seq)
            && final(r)@.buf == piece,
{
    lemma_message_fields(seq, idx, count, piece);
    lemma_message_fields(seq, 0, count, piece);
    assert(Seq::<u8>::empty() + piece =~= piece);
}

/// A frame is cut into messages that no channel finds too long, each with the frame's number, its
/// own place and how many there are; the pieces, one after the other, are the frame. The next frame
/// has the next number.
pub proof fn law_frame_is_cut(c: &mut Chunker, frame: &[u8], out: Vec<Vec<u8>>, i: int)
    requires
        call_ensures(Chunker::chunk, (c, frame), out),
        old(c).limit() >= 1,
        out@.len() < 0x1_0000,
        0 <= i < out@.len(),
    ensures
        out@[i]@.len() <= old(c).limit() + 8,
        bytes::be_value(out@[i]@.subrange(0, 4)) == old(c).next_seq(),
        bytes::be_value(out@[i]@.subrange(4, 6)) == i,
        bytes::be_value(out@[i]@.subrange(6, 8)) == out@.len(),
        join(Seq::new(out@.len(), |k: int| out@[k]@.skip(8))) == frame@,
        old(c).next_seq() < u32::MAX ==> final(c).next_seq() == old(c).next_seq() + 1,
{
    let (seq, limit) = (old(c).next_seq(), old(c).limit());
    let p = pieces(frame@, limit);
    law_pieces_cover(frame@, limit);
    let all = contents(out@);
    assert(all.len() == out@.len());
    assert forall|k: int| 0 <= k < out@.len() implies (#[trigger] out@[k])@.skip(8) == p[k] by {
        assert(all[k] == out@[k]@);
        lemma_message_fields(seq, k as nat, p.len(), p[k]);
    }
    assert(all[i] == out@[i]@);
    lemma_message_fields(seq, i as nat, p.len(), p[i]);
    bytes::lemma_be_bytes_len(seq as nat, 4);
    bytes::lemma_be_bytes_len(i as nat, 2);
    bytes::lemma_be_bytes_len(p.len(), 2);
    assert(Seq::new(out@.len(), |k: int| out@[k]@.skip(8)) =~= p);
}

/// A chunker starts with the number zero and cuts to the size that was given, at least one byte; who puts
/// pieces together starts with no frame begun.
pub proof fn law_fresh_start(n: usize, c: Chunker, r: Reassembler)
    requires
        call_ensures(Chunker::new, (n,), c),
        call_ensures(Reassembler::new, (), r),
    ensures
        c.next_seq() == 0,
        c.limit() >= 1 && (n >= 1 ==> c.limit() == n),
        r@.seq is None && r@.buf.len() == 0,
{
}

} // verus!
