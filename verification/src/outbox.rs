//! What a session has sealed and the channel has not yet taken.

use crate::controller;
use crate::crypto;
use crate::crypto::StreamSealer;
use crate::media;
use crate::media::{Chunker, DEFAULT_MAX_PAYLOAD};
use std::collections::VecDeque;
use vstd::prelude::*;

verus! {

/// The state of an outbox.
#[verifier::ext_equal]
pub struct Outgoing {
    /// The key of the stream.
    pub key: Seq<u8>,
    /// The number of the next sealed message, and of the next frame.
    pub counter: u64,
    pub seq: u32,
    /// Pieces that the channel has not yet taken.
    pub queue: Seq<Seq<u8>>,
}

/// The state after a message was sealed, cut into pieces and queued.
pub open spec fn with_message(o: Outgoing, plain: Seq<u8>) -> Outgoing {
    let sealed = crypto::sealed_message(o.key, o.counter, plain);
    Outgoing {
        counter: (o.counter + 1) as u64,
        seq: media::seq_after(o.seq),
        queue: o.queue + media::messages(o.seq, sealed, DEFAULT_MAX_PAYLOAD as nat),
        ..o
    }
}

/// Seals messages, cuts them into pieces and keeps these until the channel takes them.
pub struct Outbox {
    sealer: StreamSealer,
    chunker: Chunker,
    queue: VecDeque<Vec<u8>>,
}

impl View for Outbox {
    type V = Outgoing;

    closed spec fn view(&self) -> Outgoing {
        Outgoing {
            key: self.sealer.key(),
            counter: self.sealer.counter(),
            seq: self.chunker.next_seq(),
            queue: media::contents(self.queue@),
        }
    }
}

impl Outbox {
    /// The pieces have the default size.
    pub closed spec fn wf(&self) -> bool {
        self.chunker.limit() == DEFAULT_MAX_PAYLOAD
    }

    /// An empty outbox for the stream with this label.
    pub fn new(key: &[u8; 32], label: &[u8]) -> (o: Outbox)
        ensures
            o.wf(),
            o@ == (Outgoing {
                key: crypto::stream_key(key@, label@),
                counter: 0,
                seq: 0,
                queue: Seq::empty(),
            }),
    {
        let o = Outbox {
            sealer: StreamSealer::new(key, label),
            chunker: Chunker::new(DEFAULT_MAX_PAYLOAD),
            queue: VecDeque::new(),
        };
        proof {
            assert(o@.queue =~= Seq::<Seq<u8>>::empty());
        }
        o
    }

    /// How many messages were sealed so far.
    pub fn sealed(&self) -> (n: u64)
        ensures
            n == self@.counter,
    {
        self.sealer.sealed()
    }

    /// How many pieces wait for the channel.
    pub fn waiting(&self) -> (n: usize)
        ensures
            n == self@.queue.len(),
    {
        self.queue.len()
    }

    /// Seals a message, cuts it into pieces and queues them. The controller's side delivers it
    /// whole, whatever it received before.
    pub fn queue_message(&mut self, plain: &[u8])
        requires
            old(self).wf(),
            old(self)@.counter < u64::MAX,
            plain@.len() < crypto::SEAL_LIMIT,
        ensures
            final(self).wf(),
            final(self)@ == with_message(old(self)@, plain@),
            plain@.len() + 28 <= 65_535 * 16_384 ==> forall|a: media::Assembly|
                (#[trigger] controller::deliver(
                    old(self)@.key,
                    a,
                    final(self)@.queue.skip(old(self)@.queue.len() as int),
                )).frames == seq![plain@],
    {
        let ghost before = self@;
        let sealed: Vec<u8> = self.sealer.seal(plain);
        let mut pieces: Vec<Vec<u8>> = self.chunker.chunk(sealed.as_slice());
        let ghost all = pieces@;
        let ghost added = media::contents(all);
        let n: usize = pieces.len();
        let mut i: usize = 0;
        while i < n
            invariant
                n == all.len(),
                i <= n,
                pieces@.len() == n,
                forall|j: int| i <= j < n ==> pieces@[j] == all[j],
                added == media::contents(all),
                self@ == (Outgoing {
                    counter: (before.counter + 1) as u64,
                    seq: media::seq_after(before.seq),
                    queue: before.queue + added.take(i as int),
                    ..before
                }),
                self.wf(),
            decreases n - i,
        {
            let mut piece: Vec<u8> = Vec::new();
            std::mem::swap(&mut piece, &mut pieces[i]);
            let ghost q = self.queue@;
            self.queue.push_back(piece);
            i += 1;
            proof {
                assert(media::contents(self.queue@) =~= media::contents(q).push(piece@));
                assert(added.take(i as int) =~= added.take(i - 1).push(piece@));
                assert(before.queue + added.take(i - 1).push(piece@) =~= (before.queue
                    + added.take(i - 1)).push(piece@));
            }
        }
        proof {
            assert(added.take(n as int) =~= added);
            assert(self@ =~= with_message(before, plain@));
            assert(self@.queue.skip(before.queue.len() as int) =~= added);
            if plain@.len() + 28 <= 65_535 * 16_384 {
                media::lemma_pieces_count(sealed@, 16_384, 65_535);
                assert forall|a: media::Assembly| (#[trigger] controller::deliver(
                    before.key,
                    a,
                    added,
                )).frames == seq![plain@] by {
                    controller::law_sealed_frame_arrives(
                        before.key,
                        a,
                        before.seq,
                        sealed@,
                        16_384,
                        plain@,
                    );
                }
            }
        }
    }

    /// The piece to hand to the channel next.
    pub fn next_piece(&self) -> (r: Option<&Vec<u8>>)
        ensures
            match r {
                Some(p) => self@.queue.len() > 0 && p@ == self@.queue[0],
                None => self@.queue.len() == 0,
            },
    {
        if self.queue.len() > 0 {
            Some(&self.queue[0])
        } else {
            None
        }
    }

    /// Drops the first piece, which the channel has taken.
    pub fn piece_taken(&mut self)
        requires
            old(self).wf(),
            old(self)@.queue.len() > 0,
        ensures
            final(self).wf(),
            final(self)@ == (Outgoing { queue: old(self)@.queue.skip(1), ..old(self)@ }),
    {
        let ghost q = self.queue@;
        let _ = self.queue.pop_front();
        proof {
            assert(media::contents(self.queue@) =~= media::contents(q).skip(1));
        }
    }
}

/// Pieces leave in the order in which they came: the first one is handed to the channel until it is
/// taken, and then the next; what is queued later comes after all of them.
pub proof fn law_pieces_keep_order(
    o: &mut Outbox,
    first: Option<&Vec<u8>>,
    next: Option<&Vec<u8>>,
    p: &mut Outbox,
    plain: &[u8],
    n: usize,
)
    requires
        old(o)@.queue.len() > 0,
        call_ensures(Outbox::next_piece, (old(o),), first),
        call_ensures(Outbox::piece_taken, (o,), ()),
        call_ensures(Outbox::next_piece, (final(o),), next),
        call_ensures(Outbox::queue_message, (p, plain), ()),
        call_ensures(Outbox::waiting, (final(p),), n),
        old(p)@.counter < u64::MAX,
    ensures
        first matches Some(m) && m@ == old(o)@.queue[0],
        old(o)@.queue.len() == 1 <==> next is None,
        next matches Some(m) ==> m@ == old(o)@.queue[1],
        final(p)@.queue.take(old(p)@.queue.len() as int) == old(p)@.queue,
        n == final(p)@.queue.len(),
        n > old(p)@.queue.len(),
        final(p)@.counter == old(p)@.counter + 1,
{
    let before = old(p)@;
    let sealed = crypto::sealed_message(before.key, before.counter, plain@);
    let added = media::messages(before.seq, sealed, DEFAULT_MAX_PAYLOAD as nat);
    assert(final(p)@.queue == before.queue + added);
    assert(final(p)@.queue.take(before.queue.len() as int) =~= before.queue);
    assert(media::pieces(sealed, DEFAULT_MAX_PAYLOAD as nat).len() >= 1);
}

} // verus!
