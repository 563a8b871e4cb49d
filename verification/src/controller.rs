//! The controller's side of an established session.

use crate::bytes;
use crate::connection::SESSION_BYE;
use crate::crypto;
use crate::crypto::{StreamOpener, StreamSealer};
use crate::media;
use crate::media::{Assembly, Reassembler};
use std::collections::VecDeque;
use vstd::prelude::*;
use vstd::string::*;

verus! {

/// The state of a controller's session.
#[verifier::ext_equal]
pub struct Control {
    /// The key of the stream from the managed side.
    pub key_in: Seq<u8>,
    /// The frame being put together.
    pub assembly: Assembly,
    /// The key of the stream to the managed side.
    pub key_out: Seq<u8>,
    /// The number of the next message to the managed side.
    pub counter: u64,
    /// Sealed messages that the channel has not yet taken.
    pub out: Seq<Seq<u8>>,
}

/// What messages from the channel have led to: the frame being put together, the messages
/// opened, and whether the managed side has said goodbye.
#[verifier::ext_equal]
pub struct Delivery {
    pub assembly: Assembly,
    pub frames: Seq<Seq<u8>>,
    pub bye: bool,
}

/// One message after what came before: a goodbye, or a piece. A completed frame that does not open
/// under the stream's key is dropped.
pub open spec fn deliver_one(key: Seq<u8>, d: Delivery, msg: Seq<u8>) -> Delivery {
    if msg == SESSION_BYE.spec_bytes() {
        Delivery { bye: true, ..d }
    } else {
        let (assembly, done) = media::receive(d.assembly, msg);
        match done {
            Some(sealed) => match crypto::opened_message(key, sealed) {
                Some(frame) => Delivery { assembly, frames: d.frames.push(frame), bye: d.bye },
                None => Delivery { assembly, ..d },
            },
            None => Delivery { assembly, ..d },
        }
    }
}

/// All of `msgs`, in order.
pub open spec fn deliver(key: Seq<u8>, a: Assembly, msgs: Seq<Seq<u8>>) -> Delivery
    decreases msgs.len(),
{
    if msgs.len() == 0 {
        Delivery { assembly: a, frames: Seq::empty(), bye: false }
    } else {
        deliver_one(key, deliver(key, a, msgs.drop_last()), msgs.last())
    }
}

/// An active session on the controller's side: opens what the managed side sends, and seals input
/// for it.
pub struct Controller {
    opener: StreamOpener,
    sealer: StreamSealer,
    frames: Reassembler,
    out: VecDeque<Vec<u8>>,
}

impl View for Controller {
    type V = Control;

    closed spec fn view(&self) -> Control {
        Control {
            key_in: self.opener.key(),
            assembly: self.frames@,
            key_out: self.sealer.key(),
            counter: self.sealer.counter(),
            out: media::contents(self.out@),
        }
    }
}

impl Controller {
    /// A session with this key.
    pub fn new(key: &[u8; 32]) -> (c: Controller)
        ensures
            c@ == (Control {
                key_in: crypto::stream_key(key@, crypto::STREAM_LABEL_MEDIA_H2C.spec_bytes()),
                assembly: Assembly { seq: None, count: 0, got: 0, buf: Seq::empty() },
                key_out: crypto::stream_key(key@, crypto::STREAM_LABEL_INPUT_C2H.spec_bytes()),
                counter: 0,
                out: Seq::empty(),
            }),
    {
        let c = Controller {
            opener: StreamOpener::new(key, crypto::STREAM_LABEL_MEDIA_H2C.as_bytes()),
            sealer: StreamSealer::new(key, crypto::STREAM_LABEL_INPUT_C2H.as_bytes()),
            frames: Reassembler::new(),
            out: VecDeque::new(),
        };
        proof {
            assert(c@.out =~= Seq::<Seq<u8>>::empty());
        }
        c
    }

    /// Takes the messages that have come: the frames and control messages opened, in order, and
    /// whether the managed side has said goodbye.
    pub fn on_batch(&mut self, msgs: &Vec<Vec<u8>>) -> (r: (Vec<Vec<u8>>, bool))
        ensures
            ({
                let d = deliver(old(self)@.key_in, old(self)@.assembly, media::contents(msgs@));
                &&& media::contents(r.0@) == d.frames
                &&& r.1 == d.bye
                &&& final(self)@ == (Control { assembly: d.assembly, ..old(self)@ })
            }),
    {
        let mut frames: Vec<Vec<u8>> = Vec::new();
        let mut bye: bool = false;
        let mut i: usize = 0;
        let ghost all = media::contents(msgs@);
        let ghost start = self@;
        proof {
            assert(all.take(0) =~= Seq::<Seq<u8>>::empty());
            assert(media::contents(frames@) =~= Seq::<Seq<u8>>::empty());
        }
        while i < msgs.len()
            invariant
                all == media::contents(msgs@),
                i <= msgs@.len(),
                self@ == (Control {
                    assembly: deliver(start.key_in, start.assembly, all.take(i as int)).assembly,
                    ..start
                }),
                media::contents(frames@) == deliver(
                    start.key_in,
                    start.assembly,
                    all.take(i as int),
                ).frames,
                bye == deliver(start.key_in, start.assembly, all.take(i as int)).bye,
            decreases msgs@.len() - i,
        {
            let ghost part = all.take(i + 1);
            proof {
                assert(part.drop_last() =~= all.take(i as int));
                assert(part.last() == msgs@[i as int]@);
            }
            let ghost before = frames@;
            let raw: &[u8] = msgs[i].as_slice();
            if bytes::same_bytes(raw, SESSION_BYE.as_bytes()) {
                bye = true;
            } else {
                if let Some(sealed) = self.frames.push(raw) {
                    if let Ok(frame) = self.opener.open(sealed.as_slice()) {
                        frames.push(frame);
                        proof {
                            assert(media::contents(frames@) =~= media::contents(before).push(
                                frame@,
                            ));
                        }
                    }
                }
            }
            i += 1;
        }
        proof {
            assert(all.take(i as int) =~= all);
        }
        (frames, bye)
    }

    /// The number of messages sealed so far.
    pub fn sealed(&self) -> (n: u64)
        ensures
            n == self@.counter,
    {
        self.sealer.sealed()
    }

    /// Seals a message for the managed side and puts it into the queue.
    pub fn send_raw(&mut self, plain: &[u8])
        requires
            old(self)@.counter < u64::MAX,
            plain@.len() < crypto::SEAL_LIMIT,
        ensures
            final(self)@ == (Control {
                counter: (old(self)@.counter + 1) as u64,
                out: old(self)@.out.push(
                    crypto::sealed_message(old(self)@.key_out, old(self)@.counter, plain@),
                ),
                ..old(self)@
            }),
            crypto::opened_message(old(self)@.key_out, final(self)@.out.last()) == Some(plain@),
    {
        let ghost before = self.out@;
        let msg: Vec<u8> = self.sealer.seal(plain);
        self.out.push_back(msg);
        proof {
            assert(media::contents(self.out@) =~= media::contents(before).push(msg@));
        }
    }

    /// The message to hand to the channel next.
    pub fn next_out(&self) -> (r: Option<&Vec<u8>>)
        ensures
            match r {
                Some(m) => self@.out.len() > 0 && m@ == self@.out[0],
                None => self@.out.len() == 0,
            },
    {
        if self.out.len() > 0 {
            Some(&self.out[0])
        } else {
            None
        }
    }

    /// Drops the first message of the queue, which the channel has taken.
    pub fn out_taken(&mut self)
        requires
            old(self)@.out.len() > 0,
        ensures
            final(self)@ == (Control { out: old(self)@.out.skip(1), ..old(self)@ }),
    {
        let ghost before = self.out@;
        let _ = self.out.pop_front();
        proof {
            assert(media::contents(self.out@) =~= media::contents(before).skip(1));
        }
    }
}

proof fn lemma_deliver_frames(key: Seq<u8>, a: Assembly, msgs: Seq<Seq<u8>>)
    requires
        forall|i: int| 0 <= i < msgs.len() ==> #[trigger] msgs[i] != SESSION_BYE.spec_bytes(),
    ensures
        !deliver(key, a, msgs).bye,
        deliver(key, a, msgs).assembly == media::receive_all(a, msgs).0,
        media::receive_all(a, msgs).1.len() == 0 ==> deliver(key, a, msgs).frames.len() == 0,
        media::receive_all(a, msgs).1.len() == 1 && crypto::opened_message(
            key,
            media::receive_all(a, msgs).1[0],
        ) is Some ==> deliver(key, a, msgs).frames == seq![
            crypto::opened_message(key, media::receive_all(a, msgs).1[0])->0,
        ],
    decreases msgs.len(),
{
    if msgs.len() > 0 {
        let rest = msgs.drop_last();
        assert forall|i: int| 0 <= i < rest.len() implies #[trigger] rest[i]
            != SESSION_BYE.spec_bytes() by {
            assert(rest[i] == msgs[i]);
        }
        lemma_deliver_frames(key, a, rest);
        assert(msgs.last() == msgs[msgs.len() - 1]);
        let frames = deliver(key, a, msgs).frames;
        let got = media::receive_all(a, msgs).1;
        if got.len() == 1 && crypto::opened_message(key, got[0]) is Some {
            assert(frames =~= seq![crypto::opened_message(key, got[0])->0]);
        }
    }
}

/// A goodbye opens under no key: it is shorter than any sealed message.
pub proof fn lemma_sealed_is_no_goodbye(key: Seq<u8>, raw: Seq<u8>)
    requires
        crypto::opened_message(key, raw) is Some,
    ensures
        raw != SESSION_BYE.spec_bytes(),
{
    reveal_strlit("ZW-BYE-1");
    assert(vstd::utf8::is_ascii_chars(SESSION_BYE@));
    vstd::utf8::is_ascii_chars_encode_utf8(SESSION_BYE@);
    assert(SESSION_BYE.spec_bytes().len() == 8);
}

/// What the managed side sealed under the stream's key and sent in pieces, the controller delivers
/// whole, whatever came before: a sealed message that opens to `plain`, of at most 65535 pieces,
/// comes out as exactly `plain`, and is never taken for a goodbye.
pub proof fn law_sealed_frame_arrives(
    key: Seq<u8>,
    a: Assembly,
    seq: u32,
    sealed: Seq<u8>,
    limit: nat,
    plain: Seq<u8>,
)
    requires
        limit >= 1,
        sealed.len() > 0,
        media::pieces(sealed, limit).len() < 0x1_0000,
        crypto::opened_message(key, sealed) == Some(plain),
    ensures
        deliver(key, a, media::messages(seq, sealed, limit)).frames == seq![plain],
        !deliver(key, a, media::messages(seq, sealed, limit)).bye,
{
    let msgs = media::messages(seq, sealed, limit);
    let p = media::pieces(sealed, limit);
    lemma_pieces_nonempty(sealed, limit);
    reveal_strlit("ZW-BYE-1");
    assert(vstd::utf8::is_ascii_chars(SESSION_BYE@));
    vstd::utf8::is_ascii_chars_encode_utf8(SESSION_BYE@);
    assert(SESSION_BYE.spec_bytes().len() == 8);
    assert forall|i: int| 0 <= i < msgs.len() implies #[trigger] msgs[i]
        != SESSION_BYE.spec_bytes() by {
        crate::bytes::lemma_be_bytes_len(seq as nat, 4);
        crate::bytes::lemma_be_bytes_len((i as nat) % 0x1_0000, 2);
        crate::bytes::lemma_be_bytes_len(p.len() % 0x1_0000, 2);
        assert(msgs[i].len() == 8 + p[i].len());
    }
    media::law_frame_roundtrip(a, seq, sealed, limit);
    lemma_deliver_frames(key, a, msgs);
}

proof fn lemma_pieces_nonempty(frame: Seq<u8>, limit: nat)
    requires
        limit >= 1,
        frame.len() > 0,
    ensures
        forall|i: int|
            0 <= i < media::pieces(frame, limit).len() ==> (#[trigger] media::pieces(
                frame,
                limit,
            )[i]).len() > 0,
    decreases frame.len(),
{
    if frame.len() > limit {
        let rest = frame.skip(limit as int);
        lemma_pieces_nonempty(rest, limit);
        let p = media::pieces(frame, limit);
        assert forall|i: int| 0 <= i < p.len() implies (#[trigger] p[i]).len() > 0 by {
            if i > 0 {
                assert(p[i] == media::pieces(rest, limit)[i - 1]);
            }
        }
    }
}

/// The streams of the two sides of a session fit: what the managed side seals, the controller
/// opens, and the other way round, with the native managed side as with the worker. Each direction
/// has a key of its own, under a label of its own.
pub proof fn law_streams_fit(
    key: &[u8; 32],
    c: Controller,
    monitor: u32,
    clip: u32,
    now: crate::time::Duration,
    s: crate::managed::ManagedSession,
    w: crate::service::StreamSession,
)
    requires
        call_ensures(Controller::new, (key,), c),
        call_ensures(crate::managed::ManagedSession::new, (key, monitor, clip, now), s),
        call_ensures(crate::service::StreamSession::new, (key, now), w),
    ensures
        c@.key_in == s@.key_out && c@.key_out == s@.key_in,
        c@.key_in == w@.key_out && c@.key_out == w@.key_in,
        c@.counter == 0 && c@.out.len() == 0,
        c@.key_in == crypto::hkdf_sha256(key@, "zortilwatch media h2c v1".spec_bytes()),
        c@.key_out == crypto::hkdf_sha256(key@, "zortilwatch ctrl c2h v1".spec_bytes()),
        "zortilwatch media h2c v1"@ != "zortilwatch ctrl c2h v1"@,
{
    reveal_strlit("zortilwatch media h2c v1");
    reveal_strlit("zortilwatch ctrl c2h v1");
    assert("zortilwatch media h2c v1"@.len() != "zortilwatch ctrl c2h v1"@.len());
}

/// What the controller sends arrives: a message that is no file data comes to the managed side as
/// an event of just those bytes.
pub proof fn law_input_arrives(
    c: &mut Controller,
    plain: &[u8],
    s: &crate::managed::ManagedSession,
    raw: &[u8],
    r: crate::managed::Inbound,
)
    requires
        old(c)@.counter < u64::MAX,
        plain@.len() < crypto::SEAL_LIMIT,
        call_ensures(Controller::send_raw, (c, plain), ()),
        old(c)@.key_out == s@.key_in,
        raw@ == final(c)@.out.last(),
        call_ensures(crate::managed::ManagedSession::on_raw, (s, raw), r),
        crate::files::parsed_frame(plain@) is None,
    ensures
        r matches crate::managed::Inbound::Event(p) && p@ == plain@,
        final(c)@.out.len() == old(c)@.out.len() + 1,
        final(c)@.out.drop_last() == old(c)@.out,
        final(c)@.key_out == old(c)@.key_out && final(c)@.counter == old(c)@.counter + 1,
{
    lemma_sealed_is_no_goodbye(s@.key_in, raw@);
    assert(final(c)@.out.drop_last() =~= old(c)@.out);
}

/// What the controller has queued goes out in the order in which it was sent: the first one is
/// handed to the channel until it is taken, and then the next.
pub proof fn law_queue_keeps_order(
    c: &mut Controller,
    first: Option<&Vec<u8>>,
    next: Option<&Vec<u8>>,
)
    requires
        old(c)@.out.len() > 0,
        call_ensures(Controller::next_out, (old(c),), first),
        call_ensures(Controller::out_taken, (c,), ()),
        call_ensures(Controller::next_out, (final(c),), next),
    ensures
        first matches Some(m) && m@ == old(c)@.out[0],
        old(c)@.out.len() == 1 <==> next is None,
        next matches Some(m) ==> m@ == old(c)@.out[1],
        final(c)@ == (Control { out: final(c)@.out, ..old(c)@ }),
{
}

/// A batch is taken message by message: two batches one after the other give what both at once
/// would, in the same order; the goodbye is noticed wherever it stands, and in its absence there is
/// none.
pub proof fn law_batches_add_up(key: Seq<u8>, a: Assembly, x: Seq<Seq<u8>>, y: Seq<Seq<u8>>)
    ensures
        ({
            let (d, e) = (deliver(key, a, x), deliver(key, deliver(key, a, x).assembly, y));
            let both = deliver(key, a, x + y);
            &&& both.frames == d.frames + e.frames
            &&& both.assembly == e.assembly
            &&& both.bye == (d.bye || e.bye)
        }),
        deliver(key, a, x).bye <==> x.contains(SESSION_BYE.spec_bytes()),
    decreases y.len(), x.len(),
{
    if y.len() == 0 {
        assert(x + y =~= x);
        assert(deliver(key, a, x).frames + Seq::<Seq<u8>>::empty() =~= deliver(key, a, x).frames);
    } else {
        let rest = y.drop_last();
        law_batches_add_up(key, a, x, rest);
        assert((x + y).drop_last() =~= x + rest);
        assert((x + y).last() == y.last());
        let mid = deliver(key, a, x).assembly;
        let (d, e) = (deliver(key, a, x), deliver(key, mid, y));
        assert(deliver(key, a, x + y).frames =~= d.frames + e.frames);
    }
    lemma_bye(key, a, x);
}

proof fn lemma_bye(key: Seq<u8>, a: Assembly, x: Seq<Seq<u8>>)
    ensures
        deliver(key, a, x).bye <==> x.contains(SESSION_BYE.spec_bytes()),
    decreases x.len(),
{
    if x.len() > 0 {
        let rest = x.drop_last();
        lemma_bye(key, a, rest);
        let bye = SESSION_BYE.spec_bytes();
        assert(x =~= rest.push(x.last()));
        if rest.contains(bye) {
            let i = choose|i: int| 0 <= i < rest.len() && rest[i] == bye;
            assert(x[i] == bye);
        }
        if x.last() == bye {
            assert(x[x.len() - 1] == bye);
        }
        if x.contains(bye) && x.last() != bye {
            let i = choose|i: int| 0 <= i < x.len() && x[i] == bye;
            assert(rest[i] == bye);
        }
    }
}

/// What the managed side has queued for one message, the controller gives out as that message.
pub proof fn law_queued_message_arrives(
    o: &mut crate::outbox::Outbox,
    plain: &[u8],
    c: &mut Controller,
    msgs: &Vec<Vec<u8>>,
    r: (Vec<Vec<u8>>, bool),
)
    requires
        plain@.len() + 28 <= 65_535 * 16_384,
        call_ensures(crate::outbox::Outbox::queue_message, (o, plain), ()),
        old(c)@.key_in == old(o)@.key,
        media::contents(msgs@) == final(o)@.queue.skip(old(o)@.queue.len() as int),
        call_ensures(Controller::on_batch, (c, msgs), r),
    ensures
        r.0@.len() == 1 && r.0@[0]@ == plain@,
{
    let d = deliver(old(c)@.key_in, old(c)@.assembly, media::contents(msgs@));
    assert(d.frames == seq![plain@]);
    assert(media::contents(r.0@).len() == r.0@.len());
    assert(media::contents(r.0@)[0] == r.0@[0]@);
}

/// Nothing comes out of a session that was not sealed under its key.
pub proof fn law_only_sealed_is_delivered(
    c: &mut Controller,
    msgs: &Vec<Vec<u8>>,
    r: (Vec<Vec<u8>>, bool),
    i: int,
)
    requires
        call_ensures(Controller::on_batch, (c, msgs), r),
        0 <= i < r.0@.len(),
    ensures
        exists|sealed: Seq<u8>| #[trigger] crypto::opened_message(old(c)@.key_in, sealed) == Some(r.0@[i]@),
        r.1 <==> media::contents(msgs@).contains(SESSION_BYE.spec_bytes()),
        r.0@.len() <= msgs@.len(),
        final(c)@.key_in == old(c)@.key_in && final(c)@.out == old(c)@.out,
{
    let all = media::contents(msgs@);
    lemma_delivered(old(c)@.key_in, old(c)@.assembly, all, i);
    lemma_bye(old(c)@.key_in, old(c)@.assembly, all);
    assert(media::contents(r.0@)[i] == r.0@[i]@);
    assert(media::contents(r.0@).len() == r.0@.len());
    assert(all.len() == msgs@.len());
}

proof fn lemma_delivered(key: Seq<u8>, a: Assembly, msgs: Seq<Seq<u8>>, i: int)
    ensures
        0 <= i < deliver(key, a, msgs).frames.len() ==> exists|sealed: Seq<u8>| #[trigger]
            crypto::opened_message(key, sealed) == Some(deliver(key, a, msgs).frames[i]),
        deliver(key, a, msgs).frames.len() <= msgs.len(),
    decreases msgs.len(),
{
    if msgs.len() > 0 {
        lemma_delivered(key, a, msgs.drop_last(), i);
    }
}

} // verus!
