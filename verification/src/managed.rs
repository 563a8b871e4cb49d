//! The managed side of an established session: video out, input and requests in.
//!
//! A session is driven from outside: the caller captures, encodes, reads and writes files, and
//! tells the session what came of it; the session decides what is due, keeps the queue of sealed
//! messages, and says what to do next.

use crate::bytes;
use crate::connection::SESSION_BYE;
use crate::controller;
use crate::crypto;
use crate::crypto::StreamOpener;
use crate::encode::EncoderConfig;
use crate::files;
use crate::input;
use crate::input::{InputEvent, Injection};
use crate::json;
use crate::json::{Json, Value};
use crate::media;
use crate::outbox;
use crate::outbox::{Outbox, Outgoing};
use crate::text;
use crate::time;
use crate::time::Duration;
use crate::transfers;
use crate::transfers::Transfer;
use std::collections::HashMap;
use vstd::prelude::*;
use vstd::string::*;

verus! {

/// The bounds of the bit rate.
pub const MIN_BITRATE: u32 = 256_000;

pub const MAX_BITRATE: u32 = 20_000_000;

/// A queue longer than this means that the channel is behind.
pub const BACKLOG_HIGH: usize = 96;

/// File data is added only to a queue shorter than this: video goes first.
pub const FILE_QUEUE_LIMIT: usize = 48;

/// An upload is acknowledged each time it passes a multiple of this.
pub const ACK_WINDOW: u64 = 524_288;

/// The longest clipboard text that is shared, in bytes.
pub const CLIPBOARD_LIMIT: usize = 262_144;

/// Without a new frame for this long, the last one is sent again, in nanoseconds.
pub const KEEPALIVE_NANOS: u128 = 2_000_000_000;

/// How often a frame is kept to be sent again.
pub const SNAPSHOT_NANOS: u128 = 1_000_000_000;

/// How often the bit rate is adapted.
pub const GOVERNOR_NANOS: u128 = 3_000_000_000;

/// How often the clipboard is looked at.
pub const CLIPBOARD_NANOS: u128 = 2_000_000_000;

/// The ceilings that the controller has set.
#[derive(Clone, Copy, Debug, PartialEq, Eq, Structural)]
pub struct QualityParams {
    pub fps: u32,
    pub bitrate: u32,
    /// The divisor of the resolution.
    pub scale: u32,
}

impl Default for QualityParams {
    fn default() -> (q: QualityParams)
        ensures
            q == (QualityParams { fps: 30, bitrate: 4_000_000, scale: 1 }),
    {
        QualityParams { fps: 30, bitrate: 4_000_000, scale: 1 }
    }
}

/// `n`, or the nearer bound.
pub open spec fn clamp(n: u32, lo: u32, hi: u32) -> u32 {
    if n < lo {
        lo
    } else if n > hi {
        hi
    } else {
        n
    }
}

pub fn clamped(n: u32, lo: u32, hi: u32) -> (r: u32)
    ensures
        r == clamp(n, lo, hi),
{
    if n < lo {
        lo
    } else if n > hi {
        hi
    } else {
        n
    }
}

/// What a session takes for the ceilings that were asked for.
pub open spec fn accepted(fps: u32, bitrate: u32, scale: u32) -> QualityParams {
    QualityParams {
        fps: clamp(fps, 5, 60),
        bitrate: clamp(bitrate, MIN_BITRATE, MAX_BITRATE),
        scale: clamp(scale, 1, 4),
    }
}

/// The least time between two frames, in nanoseconds.
pub open spec fn frame_interval(fps: u32) -> int {
    (1000int / (clamp(fps, 1, 240) as int)) * 1_000_000
}

/// The state of a session on the managed side.
#[verifier::ext_equal]
pub struct Media {
    /// The keys of the streams from and to the controller.
    pub key_in: Seq<u8>,
    pub key_out: Seq<u8>,
    /// The number of the next sealed message, and of the next frame.
    pub counter: u64,
    pub seq: u32,
    /// Pieces that the channel has not yet taken.
    pub queue: Seq<Seq<u8>>,
    pub quality: QualityParams,
    /// The bit rate in use.
    pub bitrate: u32,
    pub governed_at: int,
    pub encoded_at: int,
    /// Whether an encoder is running.
    pub encoder: bool,
    /// The size of the frame kept to be sent again.
    pub snapshot: Option<(u32, u32)>,
    pub snapshot_at: int,
    /// The monitor that is captured.
    pub monitor: u32,
    pub downloads: Map<u32, Transfer>,
    pub uploads: Map<u32, Transfer>,
    /// Whether the clipboard is shared, and the number of its state that is known.
    pub clip_sync: bool,
    pub clip_seq: u32,
    pub clip_at: int,
    /// Whether the screen is dark, and whether mouse and keyboard are locked.
    pub blanked: bool,
    pub locked: bool,
}

/// What holds of every session.
pub open spec fn consistent(m: Media) -> bool {
    &&& MIN_BITRATE <= m.bitrate <= m.quality.bitrate <= MAX_BITRATE
    &&& 5 <= m.quality.fps <= 60
    &&& 1 <= m.quality.scale <= 4
}

/// The state after a message was sealed, cut into pieces and queued.
pub open spec fn queued(m: Media, plain: Seq<u8>) -> Media {
    let before = Outgoing { key: m.key_out, counter: m.counter, seq: m.seq, queue: m.queue };
    let after = outbox::with_message(before, plain);
    Media { counter: after.counter, seq: after.seq, queue: after.queue, ..m }
}

/// The encoder for frames of this size.
pub open spec fn encoder_for(m: Media, w: u32, h: u32) -> EncoderConfig {
    EncoderConfig {
        in_w: w,
        in_h: h,
        out_w: crate::encode::even((w / m.quality.scale) as u32),
        out_h: crate::encode::even((h / m.quality.scale) as u32),
        fps: m.quality.fps,
        bitrate: m.bitrate,
    }
}

/// The bit rate after a look at the queue: lowered by three tenths when the channel is behind,
/// raised by a quarter when it is idle, and kept otherwise.
pub open spec fn governed_rate(rate: u32, ceiling: u32, backlog: nat) -> u32 {
    if backlog > BACKLOG_HIGH && rate > MIN_BITRATE {
        if rate * 7 / 10 > MIN_BITRATE {
            (rate * 7 / 10) as u32
        } else {
            MIN_BITRATE
        }
    } else if backlog == 0 && rate < ceiling {
        if rate * 5 / 4 < ceiling {
            (rate * 5 / 4) as u32
        } else {
            ceiling
        }
    } else {
        rate
    }
}

/// Whether the look at the queue changes the bit rate, so that the encoder has to be made anew.
pub open spec fn regoverns(rate: u32, ceiling: u32, backlog: nat) -> bool {
    (backlog > BACKLOG_HIGH && rate > MIN_BITRATE) || (backlog == 0 && rate < ceiling)
}

/// The state after the governor's turn.
pub open spec fn governed(m: Media, now: int) -> Media {
    if time::elapsed(now, m.governed_at) >= GOVERNOR_NANOS {
        Media {
            governed_at: now,
            bitrate: governed_rate(m.bitrate, m.quality.bitrate, m.queue.len()),
            encoder: m.encoder && !regoverns(m.bitrate, m.quality.bitrate, m.queue.len()),
            ..m
        }
    } else {
        m
    }
}

/// The governor keeps the bit rate between the least one and the ceiling; a queue that is behind
/// never raises it, an idle one never lowers it.
pub proof fn law_governor(m: Media, now: int)
    requires
        consistent(m),
    ensures
        consistent(governed(m, now)),
        m.queue.len() > BACKLOG_HIGH ==> governed(m, now).bitrate <= m.bitrate,
        m.queue.len() == 0 ==> governed(m, now).bitrate >= m.bitrate,
        governed(m, now).bitrate != m.bitrate ==> !governed(m, now).encoder,
{
}

/// `{"fsProgress": ..}`: how far a transfer has come.
pub open spec fn progress_value(id: u32, offset: u64, size: u64, done: bool) -> Value {
    Value::Obj(
        seq![
            (
                "fsProgress"@,
                Value::Obj(
                    seq![
                        ("id"@, Value::Uint(id as u64)),
                        ("offset"@, Value::Uint(offset)),
                        ("size"@, Value::Uint(size)),
                        ("done"@, Value::Bool(done)),
                    ],
                ),
            ),
        ],
    )
}

pub fn progress_message(id: u32, offset: u64, size: u64, done: bool) -> (j: Json)
    ensures
        j@ == progress_value(id, offset, size, done),
{
    let inner = Json::empty().with("id", Json::Uint(id as u64)).with(
        "offset",
        Json::Uint(offset),
    ).with("size", Json::Uint(size)).with("done", Json::Bool(done));
    proof {
        assert(inner@->Obj_0 =~= progress_value(id, offset, size, done)->Obj_0[0].1->Obj_0);
    }
    let j = Json::empty().with("fsProgress", inner);
    proof {
        assert(j@->Obj_0 =~= progress_value(id, offset, size, done)->Obj_0);
    }
    j
}

/// `{"fsDone": ..}`: a transfer has ended.
pub open spec fn done_value(id: u32, ok: bool, err: Option<Seq<char>>) -> Value {
    Value::Obj(
        seq![
            (
                "fsDone"@,
                Value::Obj(
                    seq![
                        ("id"@, Value::Uint(id as u64)),
                        ("ok"@, Value::Bool(ok)),
                        ("err"@, json::text_or_null(err)),
                    ],
                ),
            ),
        ],
    )
}

pub fn done_message(id: u32, ok: bool, err: Option<&str>) -> (j: Json)
    ensures
        j@ == done_value(
            id,
            ok,
            match err {
                Some(s) => Some(s@),
                None => None,
            },
        ),
{
    let ghost e: Option<Seq<char>> = match err {
        Some(s) => Some(s@),
        None => None,
    };
    let inner = Json::empty().with("id", Json::Uint(id as u64)).with("ok", Json::Bool(ok)).with(
        "err",
        Json::text_or_null(err),
    );
    proof {
        assert(inner@->Obj_0 =~= done_value(id, ok, e)->Obj_0[0].1->Obj_0);
    }
    let j = Json::empty().with("fsDone", inner);
    proof {
        assert(j@->Obj_0 =~= done_value(id, ok, e)->Obj_0);
    }
    j
}

/// `{"fsList": ..}`: a directory's listing.
pub fn listing_message(l: &files::DirListing) -> (j: Json)
    ensures
        j@ == Value::Obj(
            seq![
                (
                    "fsList"@,
                    files::listing_json(
                        l.path@,
                        files::entries_of(l.entries@),
                        text::opt_view(l.err),
                    ),
                ),
            ],
        ),
{
    let j = Json::empty().with("fsList", l.to_json());
    proof {
        assert(j@->Obj_0 =~= seq![
            (
                "fsList"@,
                files::listing_json(l.path@, files::entries_of(l.entries@), text::opt_view(l.err)),
            ),
        ]);
    }
    j
}

/// `{"clipboard": ..}`: the managed side's clipboard.
pub open spec fn clipboard_value(t: Seq<char>) -> Value {
    Value::Obj(seq![("clipboard"@, Value::Obj(seq![("text"@, Value::Str(t))]))])
}

pub fn clipboard_message(t: &str) -> (j: Json)
    ensures
        j@ == clipboard_value(t@),
{
    let inner = Json::empty().with("text", Json::text(t));
    proof {
        assert(inner@->Obj_0 =~= seq![("text"@, Value::Str(t@))]);
    }
    let j = Json::empty().with("clipboard", inner);
    proof {
        assert(j@->Obj_0 =~= clipboard_value(t@)->Obj_0);
    }
    j
}

/// What to do with a captured frame.
#[derive(Clone, Copy, Debug, PartialEq, Eq, Structural)]
pub enum FramePlan {
    /// It came too soon.
    Skip,
    /// Encode it with the running encoder.
    Encode,
    /// Make this encoder, and encode the frame with it.
    EncodeWith(EncoderConfig),
}

/// What a message from the channel holds.
#[derive(Debug)]
pub enum Inbound {
    /// The controller has ended the session.
    Bye,
    /// Nothing of use: not sealed under the stream's key, or file data that is not waited for.
    Dropped,
    /// File data to write at this offset.
    Write { id: u32, offset: u64, data: Vec<u8> },
    /// An event to decode.
    Event(Vec<u8>),
}

/// What a message from the channel means to a session.
pub enum Meaning {
    Bye,
    Dropped,
    Write(u32, u64, Seq<u8>),
    Event(Seq<u8>),
}

pub open spec fn meaning(m: Media, raw: Seq<u8>) -> Meaning {
    if raw == SESSION_BYE.spec_bytes() {
        Meaning::Bye
    } else {
        match crypto::opened_message(m.key_in, raw) {
            None => Meaning::Dropped,
            Some(plain) => match files::parsed_frame(plain) {
                None => Meaning::Event(plain),
                Some((id, offset, data)) => if m.uploads.dom().contains(id)
                    && m.uploads[id].offset == offset {
                    Meaning::Write(id, offset, data)
                } else {
                    Meaning::Dropped
                },
            },
        }
    }
}

impl Inbound {
    pub open spec fn is(&self, m: Meaning) -> bool {
        match (self, m) {
            (Inbound::Bye, Meaning::Bye) => true,
            (Inbound::Dropped, Meaning::Dropped) => true,
            (Inbound::Write { id, offset, data }, Meaning::Write(i, o, d)) => id == i && offset == o
                && data@ == d,
            (Inbound::Event(p), Meaning::Event(q)) => p@ == q,
            _ => false,
        }
    }
}

/// What to do about an event.
#[derive(Debug)]
pub enum EventAction {
    Nothing,
    /// Capture this monitor, and report back.
    SwitchMonitor(u32),
    /// List this directory and queue the listing.
    List(String),
    /// Open this file for reading, and report back.
    OpenDownload { id: u32, path: String, offset: u64 },
    /// Open this file for writing, and report back.
    OpenUpload { id: u32, path: String, size: u64 },
    /// Close the files of this transfer.
    CloseFiles(u32),
    /// Set the clipboard, and report its new number.
    SetClipboard(String),
    ShowBlank,
    HideBlank,
    /// Lock or free mouse and keyboard, and report whether it worked.
    BlockInput(bool),
    Inject(Vec<Injection>),
}

/// The state after an event.
pub open spec fn after_event(m: Media, e: InputEvent) -> Media {
    match e {
        InputEvent::Quality { fps, bitrate, scale } => {
            let q = accepted(fps, bitrate, scale);
            if q != m.quality {
                Media { quality: q, bitrate: q.bitrate, encoder: false, snapshot: None, ..m }
            } else {
                m
            }
        },
        InputEvent::FsCancel { id } => Media {
            downloads: m.downloads.remove(id),
            uploads: m.uploads.remove(id),
            ..m
        },
        InputEvent::ClipboardSync { enabled } => Media { clip_sync: enabled, ..m },
        InputEvent::Blank { enabled } => Media { blanked: enabled, ..m },
        _ => m,
    }
}

/// What an event calls for.
pub open spec fn action_fits(m: Media, e: InputEvent, a: EventAction) -> bool {
    match e {
        InputEvent::Quality { .. } => a is Nothing,
        InputEvent::Monitor { index } => if index != m.monitor {
            a == EventAction::SwitchMonitor(index)
        } else {
            a is Nothing
        },
        InputEvent::FsList { path } => a == EventAction::List(path),
        InputEvent::FsDownload { id, path, offset } => a == (EventAction::OpenDownload {
            id,
            path,
            offset,
        }),
        InputEvent::FsUploadStart { id, path, size } => a == (EventAction::OpenUpload {
            id,
            path,
            size,
        }),
        InputEvent::FsCancel { id } => a == EventAction::CloseFiles(id),
        InputEvent::Clipboard { text } => if m.clip_sync {
            a == EventAction::SetClipboard(text)
        } else {
            a is Nothing
        },
        InputEvent::ClipboardSync { .. } => a is Nothing,
        InputEvent::Blank { enabled } => if enabled && !m.blanked {
            a is ShowBlank
        } else if !enabled && m.blanked {
            a is HideBlank
        } else {
            a is Nothing
        },
        InputEvent::InputLock { enabled } => a == EventAction::BlockInput(enabled),
        _ => a matches EventAction::Inject(v) && v@ == input::injections(e),
    }
}

/// The state after `len` bytes of an upload were written: it waits for the data that follows, or
/// is whole and done.
pub open spec fn after_written(m: Media, id: u32, len: nat) -> Media {
    let t = m.uploads[id];
    let next = (t.offset + len) as u64;
    Media {
        uploads: if next >= t.size {
            m.uploads.remove(id)
        } else {
            m.uploads.insert(id, Transfer { offset: next, ..t })
        },
        ..m
    }
}

/// What came of writing file data.
#[derive(Debug)]
pub struct Written {
    /// Messages to queue, in order.
    pub messages: Vec<Json>,
    /// Whether the file is whole and can be closed.
    pub complete: bool,
}

/// What to undo when a session ends.
#[derive(Clone, Copy, Debug, PartialEq, Eq, Structural)]
pub struct Cleanup {
    pub hide_blank: bool,
    pub unblock_input: bool,
}

/// What to undo when the screen is dark or not, and mouse and keyboard are locked or not.
pub open spec fn cleanup(blanked: bool, locked: bool) -> Cleanup {
    Cleanup { hide_blank: blanked, unblock_input: locked }
}

/// Whether mouse and keyboard are locked after an attempt to lock or to free them, which worked or
/// not, given whether they were before.
pub open spec fn lock_after(locked: bool, enabled: bool, worked: bool) -> bool {
    if enabled {
        locked || worked
    } else {
        locked && !worked
    }
}

/// The same after a run of attempts, each with what was asked for and whether it worked.
pub open spec fn lock_after_all(locked: bool, attempts: Seq<(bool, bool)>) -> bool
    decreases attempts.len(),
{
    if attempts.len() == 0 {
        locked
    } else {
        lock_after(
            lock_after_all(locked, attempts.drop_last()),
            attempts.last().0,
            attempts.last().1,
        )
    }
}

/// The managed side of a session.
pub struct ManagedSession {
    outbox: Outbox,
    opener: StreamOpener,
    quality: QualityParams,
    bitrate: u32,
    governed_at: Duration,
    encoded_at: Duration,
    encoder: bool,
    snapshot: Option<(u32, u32)>,
    snapshot_at: Duration,
    monitor: u32,
    downloads: HashMap<u32, Transfer>,
    uploads: HashMap<u32, Transfer>,
    clip_sync: bool,
    clip_seq: u32,
    clip_at: Duration,
    blanked: bool,
    locked: bool,
}

impl View for ManagedSession {
    type V = Media;

    closed spec fn view(&self) -> Media {
        Media {
            key_in: self.opener.key(),
            key_out: self.outbox@.key,
            counter: self.outbox@.counter,
            seq: self.outbox@.seq,
            queue: self.outbox@.queue,
            quality: self.quality,
            bitrate: self.bitrate,
            governed_at: self.governed_at.ns(),
            encoded_at: self.encoded_at.ns(),
            encoder: self.encoder,
            snapshot: self.snapshot,
            snapshot_at: self.snapshot_at.ns(),
            monitor: self.monitor,
            downloads: self.downloads@,
            uploads: self.uploads@,
            clip_sync: self.clip_sync,
            clip_seq: self.clip_seq,
            clip_at: self.clip_at.ns(),
            blanked: self.blanked,
            locked: self.locked,
        }
    }
}

impl ManagedSession {
    pub closed spec fn wf(&self) -> bool {
        consistent(self@) && self.outbox.wf()
    }

    /// Every session keeps to its bounds.
    pub proof fn lemma_bounds(&self)
        requires
            self.wf(),
        ensures
            consistent(self@),
    {
    }

    /// A session with this key that captures `monitor`, at a time at least two seconds after the
    /// clock's start.
    pub fn new(key: &[u8; 32], monitor: u32, clip_seq: u32, now: Duration) -> (s: ManagedSession)
        requires
            now.ns() >= KEEPALIVE_NANOS,
        ensures
            s.wf(),
            s@ == (Media {
                key_in: crypto::stream_key(key@, crypto::STREAM_LABEL_INPUT_C2H.spec_bytes()),
                key_out: crypto::stream_key(key@, crypto::STREAM_LABEL_MEDIA_H2C.spec_bytes()),
                counter: 0,
                seq: 0,
                queue: Seq::empty(),
                quality: QualityParams { fps: 30, bitrate: 4_000_000, scale: 1 },
                bitrate: 4_000_000,
                governed_at: now.ns(),
                encoded_at: now.ns() - SNAPSHOT_NANOS,
                encoder: false,
                snapshot: None,
                snapshot_at: now.ns() - KEEPALIVE_NANOS,
                monitor,
                downloads: Map::empty(),
                uploads: Map::empty(),
                clip_sync: true,
                clip_seq,
                clip_at: now.ns(),
                blanked: false,
                locked: false,
            }),
    {
        ManagedSession {
            outbox: Outbox::new(key, crypto::STREAM_LABEL_MEDIA_H2C.as_bytes()),
            opener: StreamOpener::new(key, crypto::STREAM_LABEL_INPUT_C2H.as_bytes()),
            quality: QualityParams::default(),
            bitrate: 4_000_000,
            governed_at: now,
            encoded_at: Duration { nanos: now.nanos - SNAPSHOT_NANOS },
            encoder: false,
            snapshot: None,
            snapshot_at: Duration { nanos: now.nanos - KEEPALIVE_NANOS },
            monitor,
            downloads: HashMap::new(),
            uploads: HashMap::new(),
            clip_sync: true,
            clip_seq,
            clip_at: now,
            blanked: false,
            locked: false,
        }
    }

    /// How many messages were sealed so far.
    pub fn sealed(&self) -> (n: u64)
        ensures
            n == self@.counter,
    {
        self.outbox.sealed()
    }

    /// Seals a message, cuts it into pieces and queues them. The controller's side delivers it
    /// whole, whatever it received before.
    pub fn queue_message(&mut self, plain: &[u8])
        requires
            old(self).wf(),
            old(self)@.counter < u64::MAX,
            plain@.len() < crypto::SEAL_LIMIT,
        ensures
            final(self).wf(),
            final(self)@ == queued(old(self)@, plain@),
            plain@.len() + 28 <= 65_535 * 16_384 ==> forall|a: media::Assembly|
                (#[trigger] controller::deliver(
                    old(self)@.key_out,
                    a,
                    final(self)@.queue.skip(old(self)@.queue.len() as int),
                )).frames == seq![plain@],
    {
        self.outbox.queue_message(plain);
    }

    /// What to do with a captured frame of this size.
    pub fn on_frame(&self, w: u32, h: u32, now: Duration) -> (p: FramePlan)
        requires
            self.wf(),
        ensures
            p == (if time::elapsed(now.ns(), self@.encoded_at) < frame_interval(self@.quality.fps) {
                FramePlan::Skip
            } else if self@.encoder {
                FramePlan::Encode
            } else {
                FramePlan::EncodeWith(encoder_for(self@, w, h))
            }),
    {
        let fps: u32 = clamped(self.quality.fps, 1, 240);
        let interval: Duration = Duration::from_millis((1000 / fps) as u64);
        if !now.since(self.encoded_at).at_least(interval) {
            FramePlan::Skip
        } else if self.encoder {
            FramePlan::Encode
        } else {
            FramePlan::EncodeWith(self.encoder_config(w, h))
        }
    }

    fn encoder_config(&self, w: u32, h: u32) -> (c: EncoderConfig)
        requires
            self.wf(),
        ensures
            c == encoder_for(self@, w, h),
    {
        let s: u32 = self.quality.scale;
        EncoderConfig::new_scaled(w, h, w / s, h / s, self.quality.fps, self.bitrate)
    }

    /// The encoder that was asked for is running.
    pub fn encoder_started(&mut self)
        requires
            old(self).wf(),
        ensures
            final(self).wf(),
            final(self)@ == (Media { encoder: true, ..old(self)@ }),
    {
        self.encoder = true;
    }

    /// Takes what the encoder gave for a frame: an access unit, or nothing yet.
    pub fn on_unit(&mut self, unit: &[u8], now: Duration)
        requires
            old(self).wf(),
            old(self)@.counter < u64::MAX,
            unit@.len() < crypto::SEAL_LIMIT,
        ensures
            final(self).wf(),
            final(self)@ == (if unit@.len() == 0 {
                old(self)@
            } else {
                queued(Media { encoded_at: now.ns(), ..old(self)@ }, unit@)
            }),
            0 < unit@.len() && unit@.len() + 28 <= 65_535 * 16_384 ==> forall|a: media::Assembly|
                (#[trigger] controller::deliver(
                    old(self)@.key_out,
                    a,
                    final(self)@.queue.skip(old(self)@.queue.len() as int),
                )).frames == seq![unit@],
    {
        if unit.len() > 0 {
            self.encoded_at = now;
            self.queue_message(unit);
        }
    }

    /// Whether to keep the frame just seen, to be sent again when the screen stands still.
    pub fn snapshot_due(&mut self, w: u32, h: u32, now: Duration) -> (due: bool)
        requires
            old(self).wf(),
        ensures
            final(self).wf(),
            due == (time::elapsed(now.ns(), old(self)@.snapshot_at) >= SNAPSHOT_NANOS),
            final(self)@ == (if due {
                Media { snapshot: Some((w, h)), snapshot_at: now.ns(), ..old(self)@ }
            } else {
                old(self)@
            }),
    {
        if now.since(self.snapshot_at).at_least(Duration { nanos: SNAPSHOT_NANOS }) {
            self.snapshot_at = now;
            self.snapshot = Some((w, h));
            true
        } else {
            false
        }
    }

    /// The encoder with which to send the kept frame again, when the screen has stood still.
    pub fn keepalive(&self, now: Duration) -> (c: Option<EncoderConfig>)
        requires
            self.wf(),
        ensures
            c == (match self@.snapshot {
                Some((w, h)) => if time::elapsed(now.ns(), self@.encoded_at) >= KEEPALIVE_NANOS {
                    Some(encoder_for(self@, w, h))
                } else {
                    None
                },
                None => None,
            }),
    {
        match self.snapshot {
            Some((w, h)) => if now.since(self.encoded_at).at_least(
                Duration { nanos: KEEPALIVE_NANOS },
            ) {
                Some(self.encoder_config(w, h))
            } else {
                None
            },
            None => None,
        }
    }

    /// Adapts the bit rate to the queue, every so often.
    pub fn govern(&mut self, now: Duration)
        requires
            old(self).wf(),
        ensures
            final(self).wf(),
            final(self)@ == governed(old(self)@, now.ns()),
    {
        proof {
            law_governor(self@, now.ns());
        }
        if now.since(self.governed_at).at_least(Duration { nanos: GOVERNOR_NANOS }) {
            self.governed_at = now;
            let backlog: usize = self.outbox.waiting();
            if backlog > BACKLOG_HIGH && self.bitrate > MIN_BITRATE {
                let lower: u32 = self.bitrate * 7 / 10;
                self.bitrate = if lower > MIN_BITRATE {
                    lower
                } else {
                    MIN_BITRATE
                };
                self.encoder = false;
            } else if backlog == 0 && self.bitrate < self.quality.bitrate {
                let higher: u32 = self.bitrate * 5 / 4;
                self.bitrate = if higher < self.quality.bitrate {
                    higher
                } else {
                    self.quality.bitrate
                };
                self.encoder = false;
            }
        }
    }

    /// The piece to hand to the channel next.
    pub fn next_piece(&self) -> (r: Option<&Vec<u8>>)
        ensures
            match r {
                Some(p) => self@.queue.len() > 0 && p@ == self@.queue[0],
                None => self@.queue.len() == 0,
            },
    {
        self.outbox.next_piece()
    }

    /// Drops the first piece of the queue, which the channel has taken.
    pub fn piece_taken(&mut self)
        requires
            old(self).wf(),
            old(self)@.queue.len() > 0,
        ensures
            final(self).wf(),
            final(self)@ == (Media { queue: old(self)@.queue.skip(1), ..old(self)@ }),
    {
        self.outbox.piece_taken();
    }

    /// The download to read from next, while the queue is short: video goes first.
    pub fn next_download(&self) -> (r: Option<u32>)
        requires
            self.wf(),
        ensures
            match r {
                Some(id) => self@.queue.len() < FILE_QUEUE_LIMIT && self@.downloads.dom().contains(
                    id,
                ),
                None => self@.queue.len() >= FILE_QUEUE_LIMIT || self@.downloads
                    == Map::<u32, Transfer>::empty(),
            },
    {
        if self.outbox.waiting() < FILE_QUEUE_LIMIT {
            transfers::some_transfer(&self.downloads)
        } else {
            None
        }
    }

    /// How far a download has come.
    pub fn download(&self, id: u32) -> (r: Option<Transfer>)
        requires
            self.wf(),
        ensures
            match r {
                Some(t) => self@.downloads.dom().contains(id) && self@.downloads[id] == t,
                None => !self@.downloads.dom().contains(id),
            },
    {
        match self.downloads.get(&id) {
            Some(t) => Some(*t),
            None => None,
        }
    }

    /// Takes data read for a download and queues it as a file frame; no data is the file's end.
    /// Gives the closing message, to be queued, when the download has ended.
    pub fn on_download_data(&mut self, id: u32, data: &[u8]) -> (end: Option<Json>)
        requires
            old(self).wf(),
            old(self)@.downloads.dom().contains(id),
            old(self)@.downloads[id].offset + data@.len() <= u64::MAX,
            old(self)@.counter < u64::MAX,
            data@.len() + files::FILE_HEADER < crypto::SEAL_LIMIT,
        ensures
            final(self).wf(),
            ({
                let t = old(self)@.downloads[id];
                let next = (t.offset + data@.len()) as u64;
                if data@.len() == 0 {
                    &&& end matches Some(j) && j@ == done_value(id, t.offset >= t.size, None)
                    &&& final(self)@ == (Media {
                        downloads: old(self)@.downloads.remove(id),
                        ..old(self)@
                    })
                } else {
                    let sent = queued(old(self)@, files::file_frame(id, t.offset, data@));
                    if next >= t.size {
                        &&& end matches Some(j) && j@ == done_value(id, true, None)
                        &&& final(self)@ == (Media {
                            downloads: old(self)@.downloads.remove(id),
                            ..sent
                        })
                    } else {
                        &&& end is None
                        &&& final(self)@ == (Media {
                            downloads: old(self)@.downloads.insert(
                                id,
                                Transfer { offset: next, ..t },
                            ),
                            ..sent
                        })
                    }
                }
            }),
    {
        match self.download(id) {
            Some(t) => {
                if data.len() == 0 {
                    self.downloads.remove(&id);
                    return Some(done_message(id, t.offset >= t.size, None));
                }
                let frame: Vec<u8> = files::encode_file_frame(id, t.offset, data);
                proof {
                    bytes::lemma_be_bytes_len(id as nat, 4);
                    bytes::lemma_be_bytes_len(t.offset as nat, 8);
                    assert(frame@.len() == 13 + data@.len());
                }
                self.queue_message(frame.as_slice());
                let next: u64 = t.offset + data.len() as u64;
                if next >= t.size {
                    self.downloads.remove(&id);
                    Some(done_message(id, true, None))
                } else {
                    self.downloads.insert(id, Transfer { offset: next, size: t.size });
                    None
                }
            },
            None => None,
        }
    }

    /// A download could not be read: it ends. Gives the message to queue.
    pub fn on_download_failed(&mut self, id: u32, why: &str) -> (end: Json)
        requires
            old(self).wf(),
        ensures
            final(self).wf(),
            end@ == done_value(id, false, Some(why@)),
            final(self)@ == (Media { downloads: old(self)@.downloads.remove(id), ..old(self)@ }),
    {
        self.downloads.remove(&id);
        done_message(id, false, Some(why))
    }

    /// Whether to look at the clipboard now.
    pub fn clipboard_due(&mut self, now: Duration) -> (due: bool)
        requires
            old(self).wf(),
        ensures
            final(self).wf(),
            ({
                let turn = time::elapsed(now.ns(), old(self)@.clip_at) >= CLIPBOARD_NANOS;
                &&& due == (turn && old(self)@.clip_sync)
                &&& final(self)@ == (if turn {
                    Media { clip_at: now.ns(), ..old(self)@ }
                } else {
                    old(self)@
                })
            }),
    {
        if now.since(self.clip_at).at_least(Duration { nanos: CLIPBOARD_NANOS }) {
            self.clip_at = now;
            self.clip_sync
        } else {
            false
        }
    }

    /// Takes the number of the clipboard's state; says whether it is a new one.
    pub fn clipboard_changed(&mut self, seq: u32) -> (changed: bool)
        requires
            old(self).wf(),
        ensures
            final(self).wf(),
            changed == (seq != old(self)@.clip_seq),
            final(self)@ == (Media { clip_seq: seq, ..old(self)@ }),
    {
        let changed: bool = seq != self.clip_seq;
        self.clip_seq = seq;
        changed
    }

    /// Whether a clipboard text is shared, and as what message: not an empty one, nor a very long
    /// one.
    pub fn clipboard_text(&self, t: &str) -> (r: Option<Json>)
        ensures
            match r {
                Some(j) => 0 < t.spec_bytes().len() <= CLIPBOARD_LIMIT && j@ == clipboard_value(t@),
                None => t.spec_bytes().len() == 0 || t.spec_bytes().len() > CLIPBOARD_LIMIT,
            },
    {
        let n: usize = t.as_bytes().len();
        if n > 0 && n <= CLIPBOARD_LIMIT {
            Some(clipboard_message(t))
        } else {
            None
        }
    }

    /// What a message from the channel holds.
    pub fn on_raw(&self, raw: &[u8]) -> (r: Inbound)
        requires
            self.wf(),
        ensures
            r.is(meaning(self@, raw@)),
    {
        if bytes::same_bytes(raw, SESSION_BYE.as_bytes()) {
            return Inbound::Bye;
        }
        match self.opener.open(raw) {
            Err(_) => Inbound::Dropped,
            Ok(plain) => {
                match files::parse_file_frame(plain.as_slice()) {
                    Some((id, offset, data)) => {
                        match self.uploads.get(&id) {
                            Some(t) => if t.offset == offset {
                                return Inbound::Write { id, offset, data: bytes::copy_bytes(data) };
                            } else {
                                return Inbound::Dropped;
                            },
                            None => {
                                return Inbound::Dropped;
                            },
                        }
                    },
                    None => {},
                }
                Inbound::Event(plain)
            },
        }
    }

    /// `len` bytes of an upload were written at its offset. Progress is reported each time the
    /// transfer passes a multiple of the window, and at its end, which is reported too.
    pub fn on_written(&mut self, id: u32, len: usize) -> (w: Written)
        requires
            old(self).wf(),
            old(self)@.uploads.dom().contains(id),
            old(self)@.uploads[id].offset + len <= u64::MAX,
        ensures
            final(self).wf(),
            final(self)@ == after_written(old(self)@, id, len as nat),
            ({
                let t = old(self)@.uploads[id];
                let next = (t.offset + len) as u64;
                &&& w.complete == (next >= t.size)
                &&& json::values(w.messages@) == (if next >= t.size {
                    seq![progress_value(id, next, t.size, true), done_value(id, true, None)]
                } else if next / ACK_WINDOW != t.offset / ACK_WINDOW {
                    seq![progress_value(id, next, t.size, false)]
                } else {
                    Seq::empty()
                })
            }),
    {
        let mut messages: Vec<Json> = Vec::new();
        let found: Option<Transfer> = match self.uploads.get(&id) {
            Some(t) => Some(*t),
            None => None,
        };
        match found {
            Some(t) => {
                let next: u64 = t.offset + len as u64;
                let complete: bool = next >= t.size;
                if complete {
                    messages.push(progress_message(id, next, t.size, true));
                    messages.push(done_message(id, true, None));
                    self.uploads.remove(&id);
                } else {
                    if next / ACK_WINDOW != t.offset / ACK_WINDOW {
                        messages.push(progress_message(id, next, t.size, false));
                    }
                    self.uploads.insert(id, Transfer { offset: next, size: t.size });
                }
                proof {
                    assert(json::values(messages@) =~= (if complete {
                        seq![progress_value(id, next, t.size, true), done_value(id, true, None)]
                    } else if next / ACK_WINDOW != t.offset / ACK_WINDOW {
                        seq![progress_value(id, next, t.size, false)]
                    } else {
                        Seq::empty()
                    }));
                }
                Written { messages, complete }
            },
            None => Written { messages, complete: false },
        }
    }

    /// Takes an event from the controller; says what it calls for.
    pub fn on_event(&mut self, event: InputEvent) -> (a: EventAction)
        requires
            old(self).wf(),
        ensures
            final(self).wf(),
            final(self)@ == after_event(old(self)@, event),
            action_fits(old(self)@, event, a),
    {
        match event {
            InputEvent::Quality { fps, bitrate, scale } => {
                let q = QualityParams {
                    fps: clamped(fps, 5, 60),
                    bitrate: clamped(bitrate, MIN_BITRATE, MAX_BITRATE),
                    scale: clamped(scale, 1, 4),
                };
                if q != self.quality {
                    self.bitrate = q.bitrate;
                    self.quality = q;
                    self.encoder = false;
                    self.snapshot = None;
                }
                EventAction::Nothing
            },
            InputEvent::Monitor { index } => if index != self.monitor {
                EventAction::SwitchMonitor(index)
            } else {
                EventAction::Nothing
            },
            InputEvent::FsList { path } => EventAction::List(path),
            InputEvent::FsDownload { id, path, offset } => EventAction::OpenDownload {
                id,
                path,
                offset,
            },
            InputEvent::FsUploadStart { id, path, size } => EventAction::OpenUpload {
                id,
                path,
                size,
            },
            InputEvent::FsCancel { id } => {
                self.downloads.remove(&id);
                self.uploads.remove(&id);
                EventAction::CloseFiles(id)
            },
            InputEvent::Clipboard { text } => if self.clip_sync {
                EventAction::SetClipboard(text)
            } else {
                EventAction::Nothing
            },
            InputEvent::ClipboardSync { enabled } => {
                self.clip_sync = enabled;
                EventAction::Nothing
            },
            InputEvent::Blank { enabled } => {
                let was: bool = self.blanked;
                self.blanked = enabled;
                if enabled && !was {
                    EventAction::ShowBlank
                } else if !enabled && was {
                    EventAction::HideBlank
                } else {
                    EventAction::Nothing
                }
            },
            InputEvent::InputLock { enabled } => EventAction::BlockInput(enabled),
            other => EventAction::Inject(input::inject(&other)),
        }
    }

    /// Another monitor is captured now: the encoder and the kept frame are of no use any more.
    pub fn on_monitor(&mut self, index: u32)
        requires
            old(self).wf(),
        ensures
            final(self).wf(),
            final(self)@ == (Media {
                monitor: index,
                encoder: false,
                snapshot: None,
                ..old(self)@
            }),
    {
        self.monitor = index;
        self.encoder = false;
        self.snapshot = None;
    }

    /// A file of `size` bytes is open for reading, from `offset` on or from its end. Gives the
    /// offset to read from and the message to queue.
    pub fn on_download_opened(&mut self, id: u32, offset: u64, size: u64) -> (r: (u64, Json))
        requires
            old(self).wf(),
        ensures
            final(self).wf(),
            r.0 == (if offset < size { offset } else { size }),
            r.1@ == progress_value(id, r.0, size, false),
            final(self)@ == (Media {
                downloads: old(self)@.downloads.insert(id, Transfer { offset: r.0, size }),
                ..old(self)@
            }),
    {
        let from: u64 = if offset < size {
            offset
        } else {
            size
        };
        self.downloads.insert(id, Transfer { offset: from, size });
        (from, progress_message(id, from, size, false))
    }

    /// A file that already holds `existing` bytes is open for writing `size` bytes: what is there
    /// is not sent again. Gives the messages to queue; the file is kept open unless it is whole.
    pub fn on_upload_opened(&mut self, id: u32, size: u64, existing: u64) -> (w: Written)
        requires
            old(self).wf(),
        ensures
            final(self).wf(),
            ({
                let from = if existing < size { existing } else { size };
                &&& w.complete == (existing >= size)
                &&& json::values(w.messages@) == (if existing >= size {
                    seq![progress_value(id, from, size, true), done_value(id, true, None)]
                } else {
                    seq![progress_value(id, from, size, false)]
                })
                &&& final(self)@ == (if existing >= size {
                    old(self)@
                } else {
                    Media {
                        uploads: old(self)@.uploads.insert(
                            id,
                            Transfer { offset: from, size },
                        ),
                        ..old(self)@
                    }
                })
            }),
    {
        let mut messages: Vec<Json> = Vec::new();
        let from: u64 = if existing < size {
            existing
        } else {
            size
        };
        let complete: bool = from >= size;
        messages.push(progress_message(id, from, size, complete));
        if complete {
            messages.push(done_message(id, true, None));
        } else {
            self.uploads.insert(id, Transfer { offset: from, size });
        }
        proof {
            assert(json::values(messages@) =~= (if existing >= size {
                seq![progress_value(id, from, size, true), done_value(id, true, None)]
            } else {
                seq![progress_value(id, from, size, false)]
            }));
        }
        Written { messages, complete }
    }

    /// The clipboard was set from the controller's and has this number now: it is not sent back.
    pub fn on_clipboard_set(&mut self, seq: u32)
        requires
            old(self).wf(),
        ensures
            final(self).wf(),
            final(self)@ == (Media { clip_seq: seq, ..old(self)@ }),
    {
        self.clip_seq = seq;
    }

    /// Locking or freeing mouse and keyboard has worked or not. An attempt that failed changes
    /// nothing: what was locked before it still has to be freed.
    pub fn on_block(&mut self, enabled: bool, worked: bool)
        requires
            old(self).wf(),
        ensures
            final(self).wf(),
            final(self)@ == (Media {
                locked: lock_after(old(self)@.locked, enabled, worked),
                ..old(self)@
            }),
    {
        self.locked = if enabled {
            self.locked || worked
        } else {
            self.locked && !worked
        };
    }

    /// Ends the session: what has to be undone. A dark screen or a locked keyboard never outlives
    /// the session.
    pub fn finish(&mut self) -> (c: Cleanup)
        requires
            old(self).wf(),
        ensures
            final(self).wf(),
            c == cleanup(old(self)@.blanked, old(self)@.locked),
            final(self)@ == (Media { blanked: false, locked: false, ..old(self)@ }),
    {
        let c = Cleanup { hide_blank: self.blanked, unblock_input: self.locked };
        self.blanked = false;
        self.locked = false;
        c
    }
}

/// Whether the screen is dark after an action, given whether it was before.
pub open spec fn dark_after(dark: bool, a: EventAction) -> bool {
    match a {
        EventAction::ShowBlank => true,
        EventAction::HideBlank => false,
        _ => dark,
    }
}

/// The session knows whether the screen is dark: it says to darken or to show exactly when that
/// changes something, so that at its end it undoes what is still to be undone.
pub proof fn law_blank_is_known(m: Media, e: InputEvent, a: EventAction)
    requires
        action_fits(m, e, a),
    ensures
        dark_after(m.blanked, a) == after_event(m, e).blanked,
        a is ShowBlank ==> !m.blanked,
        a is HideBlank ==> m.blanked,
{
}

/// A lock never outlives the session. Whatever was attempted in it, at its end mouse and keyboard
/// are freed exactly when some lock has worked and no attempt to free them has worked since.
pub proof fn law_lock_is_undone(blanked: bool, attempts: Seq<(bool, bool)>)
    ensures
        cleanup(blanked, lock_after_all(false, attempts)).unblock_input <==> exists|i: int|
            #![trigger attempts[i]]
            {
                &&& 0 <= i < attempts.len()
                &&& attempts[i] == (true, true)
                &&& forall|j: int| i < j < attempts.len() ==> #[trigger] attempts[j] != (false, true)
            },
    decreases attempts.len(),
{
    if attempts.len() > 0 {
        let n = attempts.len() - 1;
        let earlier = attempts.drop_last();
        law_lock_is_undone(blanked, earlier);
        if lock_after_all(false, attempts) {
            if attempts[n] == (true, true) {
                assert(attempts[n] == (true, true));
            } else {
                let i = choose|i: int|
                    #![trigger earlier[i]]
                    {
                        &&& 0 <= i < earlier.len()
                        &&& earlier[i] == (true, true)
                        &&& forall|j: int|
                            i < j < earlier.len() ==> #[trigger] earlier[j] != (false, true)
                    };
                assert(attempts[i] == (true, true));
                assert forall|j: int| i < j < attempts.len() implies #[trigger] attempts[j] != (
                    false,
                    true,
                ) by {
                    if j < n {
                        assert(earlier[j] == attempts[j]);
                    }
                }
            }
        }
        if exists|i: int|
            #![trigger attempts[i]]
            {
                &&& 0 <= i < attempts.len()
                &&& attempts[i] == (true, true)
                &&& forall|j: int| i < j < attempts.len() ==> #[trigger] attempts[j] != (false, true)
            } {
            let i = choose|i: int|
                #![trigger attempts[i]]
                {
                    &&& 0 <= i < attempts.len()
                    &&& attempts[i] == (true, true)
                    &&& forall|j: int|
                        i < j < attempts.len() ==> #[trigger] attempts[j] != (false, true)
                };
            if i < n {
                assert(earlier[i] == (true, true));
                assert forall|j: int| i < j < earlier.len() implies #[trigger] earlier[j] != (
                    false,
                    true,
                ) by {
                    assert(earlier[j] == attempts[j]);
                }
                assert(attempts[n] != (false, true));
            }
        }
    }
}

/// Every event keeps the session consistent; the ceilings stay within their bounds whatever the
/// controller asks for. Whether mouse and keyboard are locked changes only with what came of an
/// attempt.
pub proof fn law_events_keep_bounds(m: Media, e: InputEvent)
    requires
        consistent(m),
    ensures
        consistent(after_event(m, e)),
        after_event(m, e).queue == m.queue && after_event(m, e).counter == m.counter,
        after_event(m, e).locked == m.locked,
        forall|fps: u32, bitrate: u32, scale: u32|
            {
                let q = #[trigger] accepted(fps, bitrate, scale);
                5 <= q.fps <= 60 && MIN_BITRATE <= q.bitrate <= MAX_BITRATE && 1 <= q.scale <= 4
            },
{
}

/// File data is written only for an upload that was announced, only when it was sealed under the
/// stream's key, and only at the place where the file ends so far: data out of order is dropped.
pub proof fn law_uploads_in_order(m: Media, raw: Seq<u8>)
    ensures
        meaning(m, raw) matches Meaning::Write(id, offset, data) ==> {
            &&& m.uploads.dom().contains(id)
            &&& m.uploads[id].offset == offset
            &&& crypto::opened_message(m.key_in, raw) matches Some(plain)
            &&& files::parsed_frame(plain) == Some((id, offset, data))
        },
{
}

/// A cancelled transfer is over: nothing is read for it any more, and data that still comes for it
/// is dropped.
pub proof fn law_cancel_ends_transfer(m: Media, id: u32, raw: Seq<u8>)
    ensures
        ({
            let after = after_event(m, InputEvent::FsCancel { id });
            &&& !after.downloads.contains_key(id) && !after.uploads.contains_key(id)
            &&& !(meaning(after, raw) matches Meaning::Write(i, _, _) && i == id)
        }),
{
}

/// What the controller sealed as file data for an upload that waits for it, at the right place, is
/// taken as exactly that data.
pub proof fn law_upload_data_arrives(m: Media, raw: Seq<u8>, id: u32, offset: u64, data: Seq<u8>)
    requires
        crypto::opened_message(m.key_in, raw) == Some(files::file_frame(id, offset, data)),
        m.uploads.dom().contains(id),
        m.uploads[id].offset == offset,
    ensures
        meaning(m, raw) == Meaning::Write(id, offset, data),
{
    files::law_file_frame_roundtrip(id, offset, data);
    controller::lemma_sealed_is_no_goodbye(m.key_in, raw);
}

/// Anything else that the controller sealed, which is all that is no file frame, is taken as an
/// event of exactly those bytes, and never for a goodbye. An event in JSON is no file frame.
pub proof fn law_event_arrives(m: Media, raw: Seq<u8>, plain: Seq<u8>)
    requires
        crypto::opened_message(m.key_in, raw) == Some(plain),
        files::parsed_frame(plain) is None || (plain.len() > 0 && plain[0] == 0x7B),
    ensures
        meaning(m, raw) == Meaning::Event(plain),
{
    controller::lemma_sealed_is_no_goodbye(m.key_in, raw);
}

/// What the controller chose is how the screen is streamed. A new encoder takes frames of the size
/// that was captured; each side of the picture is what the scale divides the frame's side into,
/// made even downwards, so that the picture keeps its shape; rate and bit rate are those in force.
/// A running encoder goes on.
pub proof fn law_picture_keeps_its_shape(
    s: &ManagedSession,
    w: u32,
    h: u32,
    now: Duration,
    p: FramePlan,
)
    requires
        s.wf(),
        call_ensures(ManagedSession::on_frame, (s, w, h, now), p),
    ensures
        p matches FramePlan::EncodeWith(c) ==> shape_kept(s@, w, h, c),
        p is Encode ==> s@.encoder,
        p is EncodeWith ==> !s@.encoder,
{
    lemma_shape(s@, w, h);
}

/// Whether an encoder makes of frames of this size a picture of the chosen scale, rate and bit
/// rate.
pub open spec fn shape_kept(m: Media, w: u32, h: u32, c: EncoderConfig) -> bool {
    let s = m.quality.scale;
    &&& c.in_w == w && c.in_h == h
    &&& c.out_w % 2 == 0 && c.out_w * s <= w < (c.out_w + 2) * s
    &&& c.out_h % 2 == 0 && c.out_h * s <= h < (c.out_h + 2) * s
    &&& c.fps == m.quality.fps && c.bitrate == m.bitrate
}

proof fn lemma_shape(m: Media, w: u32, h: u32)
    requires
        consistent(m),
    ensures
        shape_kept(m, w, h, encoder_for(m, w, h)),
{
    let s = m.quality.scale;
    let c = encoder_for(m, w, h);
    lemma_even_part(w, s, c.out_w);
    lemma_even_part(h, s, c.out_h);
}

proof fn lemma_even_part(n: u32, s: u32, part: u32)
    requires
        1 <= s,
        part == crate::encode::even((n / s) as u32),
    ensures
        part % 2 == 0,
        part * s <= n < (part + 2) * s,
{
    let q = n as int / s as int;
    assert(q * s <= n < (q + 1) * s) by (nonlinear_arith)
        requires
            q == n as int / s as int,
            s >= 1,
    ;
    assert(part <= q <= part + 1);
    assert(part * s <= q * s && (q + 1) * s <= (part + 2) * s) by (nonlinear_arith)
        requires
            part <= q <= part + 1,
            s >= 1,
    ;
}

/// Frames come at the rate that was chosen: one is left out exactly when so little time has passed
/// since the last one that, in whole milliseconds, more than the rate would fit into a second.
pub proof fn law_frames_keep_the_rate(
    s: &ManagedSession,
    w: u32,
    h: u32,
    now: Duration,
    p: FramePlan,
)
    requires
        s.wf(),
        call_ensures(ManagedSession::on_frame, (s, w, h, now), p),
    ensures
        p is Skip <==> (time::elapsed(now.ns(), s@.encoded_at) / 1_000_000 + 1) * s@.quality.fps
            <= 1000,
{
    let fps = s@.quality.fps as int;
    let q = 1000int / fps;
    let e = time::elapsed(now.ns(), s@.encoded_at);
    let ms = e / 1_000_000;
    assert(q * fps <= 1000 < (q + 1) * fps) by (nonlinear_arith)
        requires
            q == 1000int / fps,
            fps >= 1,
    ;
    assert(frame_interval(s@.quality.fps) == q * 1_000_000);
    if ms < q {
        assert((ms + 1) * fps <= q * fps) by (nonlinear_arith)
            requires
                ms + 1 <= q,
                fps >= 1,
        ;
    } else {
        assert((q + 1) * fps <= (ms + 1) * fps) by (nonlinear_arith)
            requires
                q <= ms,
                fps >= 1,
        ;
    }
}

/// A screen that stands still is sent again: the kept frame, when there is one, once two seconds
/// have passed since the last one, with an encoder for its size.
pub proof fn law_still_screen_is_sent_again(
    s: &ManagedSession,
    now: Duration,
    c: Option<EncoderConfig>,
)
    requires
        s.wf(),
        call_ensures(ManagedSession::keepalive, (s, now), c),
    ensures
        c is Some <==> s@.snapshot is Some && now.ns() >= s@.encoded_at + 2_000_000_000,
        c matches Some(config) ==> shape_kept(s@, (s@.snapshot->0).0, (s@.snapshot->0).1, config),
{
    if let Some((w, h)) = s@.snapshot {
        lemma_shape(s@, w, h);
    }
}

/// Mouse and keyboard are locked or freed as it was asked for: after a request to free them, the
/// attempt that it calls for, when it works, leaves them free, and after a request to lock them,
/// locked. An attempt that fails leaves them as they were.
pub proof fn law_lock_goes_as_asked(
    s: &mut ManagedSession,
    wanted: bool,
    a: EventAction,
    t: &mut ManagedSession,
    worked: bool,
)
    requires
        call_ensures(ManagedSession::on_event, (s, InputEvent::InputLock { enabled: wanted }), a),
        old(t)@ == final(s)@,
        a matches EventAction::BlockInput(attempt) && call_ensures(
            ManagedSession::on_block,
            (t, attempt, worked),
            (),
        ),
    ensures
        worked ==> final(t)@.locked == wanted,
        !worked ==> final(t)@.locked == old(s)@.locked,
        final(t)@ == (Media { locked: final(t)@.locked, ..old(s)@ }),
{
}

/// A request to lock or to free mouse and keyboard always calls for an attempt.
pub proof fn law_lock_is_attempted(s: &mut ManagedSession, wanted: bool, a: EventAction)
    requires
        call_ensures(ManagedSession::on_event, (s, InputEvent::InputLock { enabled: wanted }), a),
    ensures
        a is BlockInput,
{
}

/// Ceilings that lie within their bounds are taken as they are, others at the nearer bound. New
/// ceilings count at once: the bit rate goes to its ceiling, and a new encoder is made, for a frame
/// yet to come. Ceilings that are in force already change nothing.
pub proof fn law_quality_is_taken(
    s: &mut ManagedSession,
    fps: u32,
    bitrate: u32,
    scale: u32,
    a: EventAction,
)
    requires
        call_ensures(
            ManagedSession::on_event,
            (s, InputEvent::Quality { fps, bitrate, scale }),
            a,
        ),
    ensures
        a is Nothing,
        ({
            let q = final(s)@.quality;
            &&& 5 <= fps <= 60 ==> q.fps == fps
            &&& fps < 5 ==> q.fps == 5
            &&& fps > 60 ==> q.fps == 60
            &&& 256_000 <= bitrate <= 20_000_000 ==> q.bitrate == bitrate
            &&& bitrate < 256_000 ==> q.bitrate == 256_000
            &&& bitrate > 20_000_000 ==> q.bitrate == 20_000_000
            &&& 1 <= scale <= 4 ==> q.scale == scale
            &&& scale == 0 ==> q.scale == 1
            &&& scale > 4 ==> q.scale == 4
            &&& q == old(s)@.quality ==> final(s)@ == old(s)@
            &&& q != old(s)@.quality ==> {
                &&& final(s)@.bitrate == q.bitrate
                &&& !final(s)@.encoder && final(s)@.snapshot is None
                &&& final(s)@ == (Media {
                    quality: q,
                    bitrate: q.bitrate,
                    encoder: false,
                    snapshot: None,
                    ..old(s)@
                })
            }
        }),
{
}

/// What the controller asks for is done, for just the file, the monitor or the text that it names,
/// and asking changes nothing else in the session.
pub proof fn law_requests_are_passed_on(s: &mut ManagedSession, e: InputEvent, a: EventAction)
    requires
        call_ensures(ManagedSession::on_event, (s, e), a),
    ensures
        match e {
            InputEvent::Monitor { index } => {
                &&& final(s)@ == old(s)@
                &&& index == old(s)@.monitor ==> a is Nothing
                &&& index != old(s)@.monitor ==> a == EventAction::SwitchMonitor(index)
            },
            InputEvent::FsList { path } => {
                &&& final(s)@ == old(s)@
                &&& a matches EventAction::List(p)
                &&& p@ == path@
            },
            InputEvent::FsDownload { id, path, offset } => {
                &&& final(s)@ == old(s)@
                &&& a matches EventAction::OpenDownload { id: i, path: p, offset: o }
                &&& i == id && p@ == path@ && o == offset
            },
            InputEvent::FsUploadStart { id, path, size } => {
                &&& final(s)@ == old(s)@
                &&& a matches EventAction::OpenUpload { id: i, path: p, size: n }
                &&& i == id && p@ == path@ && n == size
            },
            InputEvent::FsCancel { id } => {
                &&& a == EventAction::CloseFiles(id)
                &&& forall|k: u32|
                    #![trigger final(s)@.downloads.contains_key(k)]
                    final(s)@.downloads.contains_key(k) <==> k != id && old(s)@.downloads.contains_key(k)
                &&& forall|k: u32|
                    #![trigger final(s)@.uploads.contains_key(k)]
                    final(s)@.uploads.contains_key(k) <==> k != id && old(s)@.uploads.contains_key(k)
                &&& forall|k: u32| #[trigger]
                    final(s)@.downloads.contains_key(k) ==> final(s)@.downloads[k] == old(
                        s,
                    )@.downloads[k]
                &&& forall|k: u32| #[trigger]
                    final(s)@.uploads.contains_key(k) ==> final(s)@.uploads[k] == old(s)@.uploads[k]
                &&& final(s)@ == (Media {
                    downloads: final(s)@.downloads,
                    uploads: final(s)@.uploads,
                    ..old(s)@
                })
            },
            InputEvent::Clipboard { text } => {
                &&& final(s)@ == old(s)@
                &&& a is SetClipboard <==> old(s)@.clip_sync
                &&& !old(s)@.clip_sync ==> a is Nothing
                &&& a matches EventAction::SetClipboard(t) ==> t@ == text@
            },
            InputEvent::ClipboardSync { enabled } => {
                &&& a is Nothing
                &&& final(s)@ == (Media { clip_sync: enabled, ..old(s)@ })
            },
            InputEvent::Blank { enabled } => {
                &&& final(s)@ == (Media { blanked: enabled, ..old(s)@ })
                &&& a is ShowBlank <==> enabled && !old(s)@.blanked
                &&& a is HideBlank <==> !enabled && old(s)@.blanked
                &&& enabled == old(s)@.blanked ==> a is Nothing
            },
            InputEvent::InputLock { .. } | InputEvent::Quality { .. } => true,
            _ => {
                &&& final(s)@ == old(s)@
                &&& a is Inject
            },
        },
{
}

/// A key that the controller presses is pressed on the managed side, and one that it releases is
/// released; so with buttons, the pointer and the wheel. Nothing else is injected with it.
pub proof fn law_session_injects_input(
    s: &mut ManagedSession,
    e: InputEvent,
    a: EventAction,
    out: Vec<Injection>,
)
    requires
        e is Key || e is MouseButton || e is MouseMove || e is Scroll,
        call_ensures(ManagedSession::on_event, (s, e), a),
        call_ensures(input::inject, (&e,), out),
    ensures
        a matches EventAction::Inject(what) && what@ == out@,
        e matches InputEvent::Key { code, down } ==> a matches EventAction::Inject(what) && {
            &&& what@.len() == 1
            &&& what@[0] matches Injection::Key { up, .. }
            &&& up != down
        },
{
    input::law_input_is_injected(e, out);
}

/// Who reads a report of progress learns which transfer it is, how far it has come, how long the
/// file is, and whether that is all.
pub proof fn law_progress_is_read_back(id: u32, offset: u64, size: u64, done: bool, j: Json)
    requires
        call_ensures(progress_message, (id, offset, size, done), j),
    ensures
        json::field(j@, "fsProgress"@) matches Some(p) && {
            &&& json::uint_field(p, "id"@) == Some(id as u64)
            &&& json::uint_field(p, "offset"@) == Some(offset)
            &&& json::uint_field(p, "size"@) == Some(size)
            &&& json::bool_field(p, "done"@) == Some(done)
        },
{
    reveal_strlit("id");
    reveal_strlit("offset");
    reveal_strlit("size");
    reveal_strlit("done");
    assert("id"@.len() == 2 && "offset"@.len() == 6 && "size"@.len() == 4 && "done"@.len() == 4);
    assert("size"@[0] != "done"@[0]);
    json::lemma_field_at(j@, "fsProgress"@, 0);
    let p = j@->Obj_0[0].1;
    json::lemma_field_at(p, "id"@, 0);
    json::lemma_field_at(p, "offset"@, 1);
    json::lemma_field_at(p, "size"@, 2);
    json::lemma_field_at(p, "done"@, 3);
}

/// Who reads the report that a transfer has ended learns which one it is, whether it went well, and
/// why not.
pub proof fn law_end_is_read_back(id: u32, ok: bool, err: Option<&str>, j: Json)
    requires
        call_ensures(done_message, (id, ok, err), j),
    ensures
        json::field(j@, "fsDone"@) matches Some(d) && {
            &&& json::uint_field(d, "id"@) == Some(id as u64)
            &&& json::bool_field(d, "ok"@) == Some(ok)
            &&& match err {
                Some(why) => json::str_field(d, "err"@) == Some(why@),
                None => json::field(d, "err"@) == Some(Value::Null),
            }
        },
{
    reveal_strlit("id");
    reveal_strlit("ok");
    reveal_strlit("err");
    assert("id"@.len() == 2 && "ok"@.len() == 2 && "err"@.len() == 3);
    assert("id"@[0] != "ok"@[0]);
    json::lemma_field_at(j@, "fsDone"@, 0);
    let d = j@->Obj_0[0].1;
    json::lemma_field_at(d, "id"@, 0);
    json::lemma_field_at(d, "ok"@, 1);
    json::lemma_field_at(d, "err"@, 2);
}

/// Who reads the message with a listing gets the listing, and who reads the one with the clipboard
/// the text.
pub proof fn law_messages_are_read_back(
    l: &files::DirListing,
    list: Json,
    inner: Json,
    t: &str,
    clip: Json,
)
    requires
        call_ensures(listing_message, (l,), list),
        call_ensures(files::DirListing::to_json, (l,), inner),
        call_ensures(clipboard_message, (t,), clip),
    ensures
        json::field(list@, "fsList"@) == Some(inner@),
        json::field(clip@, "clipboard"@) matches Some(c) && json::str_field(c, "text"@) == Some(t@),
{
    json::lemma_field_at(list@, "fsList"@, 0);
    json::lemma_field_at(clip@, "clipboard"@, 0);
    json::lemma_field_at(clip@->Obj_0[0].1, "text"@, 0);
}

/// A file that is fetched is sent from the place that was asked for, or from its end, and the
/// controller is told so; the transfer is then under way with the file's length.
pub proof fn law_download_starts(
    s: &mut ManagedSession,
    id: u32,
    offset: u64,
    size: u64,
    r: (u64, Json),
)
    requires
        call_ensures(ManagedSession::on_download_opened, (s, id, offset, size), r),
    ensures
        r.0 <= offset && r.0 <= size && (r.0 == offset || r.0 == size),
        r.1@ == progress_value(id, r.0, size, false),
        final(s)@.downloads.contains_key(id),
        final(s)@.downloads[id].offset == r.0 && final(s)@.downloads[id].size == size,
        forall|k: u32|
            k != id ==> (#[trigger] final(s)@.downloads.contains_key(k) <==> old(
                s,
            )@.downloads.contains_key(k)),
        forall|k: u32|
            k != id && #[trigger] final(s)@.downloads.contains_key(k) ==> final(s)@.downloads[k] == old(
                s,
            )@.downloads[k],
        final(s)@ == (Media { downloads: final(s)@.downloads, ..old(s)@ }),
{
}

/// Data that was read for a download goes out as a frame of that transfer, at the place where the
/// transfer stood, and the transfer moves on by its length. It ends, and the controller is told
/// that it went well, once it has come to the file's end; where no more can be read before that,
/// the controller is told that it did not.
pub proof fn law_download_goes_on(
    s: &mut ManagedSession,
    id: u32,
    data: &[u8],
    end: Option<Json>,
)
    requires
        call_ensures(ManagedSession::on_download_data, (s, id, data), end),
        old(s)@.downloads.contains_key(id),
        old(s)@.downloads[id].offset + data@.len() <= u64::MAX,
        old(s)@.counter < u64::MAX,
    ensures
        ({
            let t = old(s)@.downloads[id];
            let at = t.offset + data@.len();
            &&& end is Some <==> !final(s)@.downloads.contains_key(id)
            &&& end is Some <==> data@.len() == 0 || at >= t.size
            &&& end matches Some(j) ==> j@ == done_value(id, at >= t.size, None)
            &&& end is None ==> final(s)@.downloads[id].offset == at && final(s)@.downloads[id].size
                == t.size
            &&& data@.len() > 0 ==> final(s)@.queue == queued(
                old(s)@,
                files::file_frame(id, t.offset, data@),
            ).queue && final(s)@.counter == old(s)@.counter + 1
            &&& data@.len() == 0 ==> final(s)@.queue == old(s)@.queue
            &&& forall|k: u32|
                k != id ==> (#[trigger] final(s)@.downloads.contains_key(k) <==> old(
                    s,
                )@.downloads.contains_key(k))
            &&& final(s)@.uploads == old(s)@.uploads
        }),
{
}

/// A download that cannot be read ends, and the controller is told why.
pub proof fn law_failed_download_ends(s: &mut ManagedSession, id: u32, why: &str, j: Json)
    requires
        call_ensures(ManagedSession::on_download_failed, (s, id, why), j),
    ensures
        !final(s)@.downloads.contains_key(id),
        j@ == done_value(id, false, Some(why@)),
        forall|k: u32|
            k != id ==> (#[trigger] final(s)@.downloads.contains_key(k) <==> old(
                s,
            )@.downloads.contains_key(k)),
        final(s)@ == (Media { downloads: final(s)@.downloads, ..old(s)@ }),
{
}

/// An upload goes on from what the file already holds, and the controller is told from where; a
/// file that is whole already is done at once. What is waited for is the rest.
pub proof fn law_upload_starts(
    s: &mut ManagedSession,
    id: u32,
    size: u64,
    existing: u64,
    w: Written,
)
    requires
        call_ensures(ManagedSession::on_upload_opened, (s, id, size, existing), w),
    ensures
        w.complete <==> existing >= size,
        w.messages@.len() >= 1,
        w.messages@[0]@ == progress_value(
            id,
            if w.complete {
                size
            } else {
                existing
            },
            size,
            w.complete,
        ),
        w.complete ==> {
            &&& w.messages@.len() == 2
            &&& w.messages@[1]@ == done_value(id, true, None)
            &&& final(s)@ == old(s)@
        },
        !w.complete ==> {
            &&& w.messages@.len() == 1
            &&& final(s)@.uploads.contains_key(id)
            &&& final(s)@.uploads[id].offset == existing && final(s)@.uploads[id].size == size
            &&& final(s)@ == (Media {
                uploads: old(s)@.uploads.insert(id, final(s)@.uploads[id]),
                ..old(s)@
            })
        },
{
    let all = json::values(w.messages@);
    assert(all.len() == w.messages@.len());
    assert(all[0] == w.messages@[0]@);
    if w.complete {
        assert(all[1] == w.messages@[1]@);
    }
}

/// Data that was written moves an upload on by its length. The controller is told of it whenever
/// that takes the upload past a multiple of the window, so that it may send more, and at the end,
/// when the file is as long as it was announced; then the upload is over, and not before.
pub proof fn law_upload_goes_on(s: &mut ManagedSession, id: u32, len: usize, w: Written)
    requires
        call_ensures(ManagedSession::on_written, (s, id, len), w),
        old(s)@.uploads.contains_key(id),
        old(s)@.uploads[id].offset + len <= u64::MAX,
    ensures
        ({
            let t = old(s)@.uploads[id];
            let at = (t.offset + len) as u64;
            &&& w.complete <==> at >= t.size
            &&& w.complete <==> !final(s)@.uploads.contains_key(id)
            &&& !w.complete ==> final(s)@.uploads[id].offset == at && final(s)@.uploads[id].size == t.size
            &&& w.complete ==> {
                &&& w.messages@.len() == 2
                &&& w.messages@[0]@ == progress_value(id, at, t.size, true)
                &&& w.messages@[1]@ == done_value(id, true, None)
            }
            &&& !w.complete ==> w.messages@.len() <= 1
            &&& !w.complete && w.messages@.len() == 1 ==> w.messages@[0]@ == progress_value(
                id,
                at,
                t.size,
                false,
            )
            &&& !w.complete ==> (w.messages@.len() == 1 <==> exists|n: int|
                t.offset < #[trigger] (n * 524_288) <= at)
            &&& forall|k: u32|
                k != id ==> (#[trigger] final(s)@.uploads.contains_key(k) <==> old(
                    s,
                )@.uploads.contains_key(k))
            &&& forall|k: u32|
                k != id && #[trigger] final(s)@.uploads.contains_key(k) ==> final(s)@.uploads[k] == old(
                    s,
                )@.uploads[k]
            &&& final(s)@ == (Media { uploads: final(s)@.uploads, ..old(s)@ })
        }),
{
    let all = json::values(w.messages@);
    let t = old(s)@.uploads[id];
    let at = (t.offset + len) as u64;
    assert(all.len() == w.messages@.len());
    if w.messages@.len() > 0 {
        assert(all[0] == w.messages@[0]@);
    }
    if w.messages@.len() > 1 {
        assert(all[1] == w.messages@[1]@);
    }
    let n = at as int / 524_288;
    if at / ACK_WINDOW != t.offset / ACK_WINDOW {
        assert(t.offset < n * 524_288 <= at);
    }
    if exists|m: int| t.offset < #[trigger] (m * 524_288) <= at {
        let m = choose|m: int| t.offset < #[trigger] (m * 524_288) <= at;
        assert(at / ACK_WINDOW >= m && (t.offset as int) / 524_288 < m);
    }
}

/// Every three seconds the bit rate follows the channel: it falls by three tenths where the queue
/// is long, and rises by a quarter where it is empty, but never leaves its bounds; a queue that is
/// neither leaves it. A new rate is a new encoder; a rate that stays keeps the encoder. The
/// ceilings and the queue stay as they are.
pub proof fn law_rate_follows_the_channel(s: &mut ManagedSession, now: Duration)
    requires
        old(s).wf(),
        call_ensures(ManagedSession::govern, (s, now), ()),
    ensures
        ({
            let (m, n) = (old(s)@, final(s)@);
            let ceiling = m.quality.bitrate;
            let due = now.ns() >= m.governed_at + 3_000_000_000;
            &&& !due ==> n == m
            &&& due ==> n.governed_at == now.ns()
            &&& due && m.queue.len() > 96 ==> {
                &&& n.bitrate == 256_000 || n.bitrate * 10 <= m.bitrate * 7 < n.bitrate * 10 + 10
                &&& n.bitrate == 256_000 ==> m.bitrate * 7 < 2_560_010
            }
            &&& due && m.queue.len() == 0 ==> {
                &&& n.bitrate == ceiling || n.bitrate * 4 <= m.bitrate * 5 < n.bitrate * 4 + 4
                &&& n.bitrate == ceiling ==> m.bitrate * 5 >= ceiling * 4
            }
            &&& due && 0 < m.queue.len() <= 96 ==> n.bitrate == m.bitrate && n.encoder == m.encoder
            &&& n.bitrate == m.bitrate && m.queue.len() > 0 ==> n.encoder == m.encoder
            &&& n.bitrate != m.bitrate ==> !n.encoder
            &&& n.bitrate <= ceiling && n.bitrate >= 256_000
            &&& n == (Media {
                governed_at: n.governed_at,
                bitrate: n.bitrate,
                encoder: n.encoder,
                ..m
            })
        }),
{
}

/// Another monitor is captured from now on: what was made for the old one, its encoder and its kept
/// frame, is of no use any more, and nothing else changes.
pub proof fn law_monitor_is_switched(s: &mut ManagedSession, index: u32)
    requires
        call_ensures(ManagedSession::on_monitor, (s, index), ()),
    ensures
        final(s)@.monitor == index,
        !final(s)@.encoder,
        final(s)@.snapshot is None,
        final(s)@ == (Media { monitor: index, encoder: false, snapshot: None, ..old(s)@ }),
{
}

/// An access unit goes out whole, in pieces at the end of the queue, and counts as the latest
/// frame; where the encoder gave nothing, nothing changes.
pub proof fn law_unit_goes_out(s: &mut ManagedSession, unit: &[u8], now: Duration)
    requires
        old(s)@.counter < u64::MAX,
        0 < unit@.len(),
        unit@.len() + 28 <= 65_535 * 16_384,
        call_ensures(ManagedSession::on_unit, (s, unit, now), ()),
    ensures
        final(s)@.encoded_at == now.ns(),
        final(s)@.counter == old(s)@.counter + 1,
        final(s)@.queue.len() >= old(s)@.queue.len(),
        final(s)@.queue.take(old(s)@.queue.len() as int) == old(s)@.queue,
        forall|a: media::Assembly|
            (#[trigger] controller::deliver(
                old(s)@.key_out,
                a,
                final(s)@.queue.skip(old(s)@.queue.len() as int),
            )).frames == seq![unit@],
        final(s)@ == (Media {
            encoded_at: now.ns(),
            counter: final(s)@.counter,
            seq: final(s)@.seq,
            queue: final(s)@.queue,
            ..old(s)@
        }),
{
    let m = Media { encoded_at: now.ns(), ..old(s)@ };
    let sealed = crypto::sealed_message(m.key_out, m.counter, unit@);
    let added = media::messages(m.seq, sealed, media::DEFAULT_MAX_PAYLOAD as nat);
    assert(final(s)@.queue == m.queue + added);
    assert(final(s)@.queue.take(m.queue.len() as int) =~= m.queue);
}

/// At most once a second a frame is kept, and then just that frame, of that size.
pub proof fn law_frame_is_kept(s: &mut ManagedSession, w: u32, h: u32, now: Duration, due: bool)
    requires
        call_ensures(ManagedSession::snapshot_due, (s, w, h, now), due),
    ensures
        due <==> now.ns() >= old(s)@.snapshot_at + 1_000_000_000,
        due ==> final(s)@ == (Media { snapshot: Some((w, h)), snapshot_at: now.ns(), ..old(s)@ }),
        !due ==> final(s)@ == old(s)@,
{
}

/// The clipboard is looked at every two seconds, while it is shared. A state is new when its number
/// is another than the one seen last, and seen from then on; the state that the controller's text
/// has given it is no news. Only a text that is neither empty nor longer than the limit is shared,
/// as it is.
pub proof fn law_clipboard_is_shared(
    s: &mut ManagedSession,
    now: Duration,
    due: bool,
    t: &mut ManagedSession,
    number: u32,
    changed: bool,
    u: &mut ManagedSession,
    set: u32,
    v: &mut ManagedSession,
    news: bool,
)
    requires
        call_ensures(ManagedSession::clipboard_due, (s, now), due),
        call_ensures(ManagedSession::clipboard_changed, (t, number), changed),
        call_ensures(ManagedSession::on_clipboard_set, (u, set), ()),
        old(v)@ == final(u)@,
        call_ensures(ManagedSession::clipboard_changed, (v, set), news),
    ensures
        due <==> old(s)@.clip_sync && now.ns() >= old(s)@.clip_at + 2_000_000_000,
        due ==> final(s)@ == (Media { clip_at: now.ns(), ..old(s)@ }),
        changed <==> number != old(t)@.clip_seq,
        final(t)@ == (Media { clip_seq: number, ..old(t)@ }),
        final(u)@ == (Media { clip_seq: set, ..old(u)@ }),
        !news,
{
}

/// A clipboard text that is shared is shared as it is.
pub proof fn law_shared_text(s: &ManagedSession, t: &str, r: Option<Json>)
    requires
        call_ensures(ManagedSession::clipboard_text, (s, t), r),
    ensures
        r is Some <==> 1 <= t.spec_bytes().len() <= 262_144,
        r matches Some(j) ==> json::field(j@, "clipboard"@) matches Some(c) && json::str_field(
            c,
            "text"@,
        ) == Some(t@),
{
    if let Some(j) = r {
        json::lemma_field_at(j@, "clipboard"@, 0);
        json::lemma_field_at(j@->Obj_0[0].1, "text"@, 0);
    }
}

/// Video goes first: a download is read from only while the queue is short, and then as long as
/// there is one.
pub proof fn law_video_goes_first(s: &ManagedSession, r: Option<u32>)
    requires
        call_ensures(ManagedSession::next_download, (s,), r),
    ensures
        s@.queue.len() >= 48 ==> r is None,
        s@.queue.len() < 48 && r is None ==> forall|id: u32| !#[trigger] s@.downloads.contains_key(id),
        r matches Some(id) ==> s@.downloads.contains_key(id),
{
}

/// What the managed side makes of a message: the goodbye ends the session, and nothing else does;
/// what was not sealed under the session's key counts for nothing.
pub proof fn law_only_sealed_counts(s: &ManagedSession, raw: &[u8], r: Inbound)
    requires
        call_ensures(ManagedSession::on_raw, (s, raw), r),
    ensures
        r is Bye <==> raw@ == SESSION_BYE.spec_bytes(),
        !(r is Bye) && crypto::opened_message(s@.key_in, raw@) is None ==> r is Dropped,
        r matches Inbound::Event(p) ==> crypto::opened_message(s@.key_in, raw@) == Some(p@)
            && files::parsed_frame(p@) is None,
        r matches Inbound::Write { id, offset, data } ==> {
            &&& crypto::opened_message(s@.key_in, raw@) matches Some(plain)
            &&& files::parsed_frame(plain) == Some((id, offset, data@))
            &&& s@.uploads.contains_key(id) && s@.uploads[id].offset == offset
        },
        crypto::opened_message(s@.key_in, raw@) matches Some(plain) && files::parsed_frame(plain)
            is None ==> r is Event,
        crypto::opened_message(s@.key_in, raw@) matches Some(plain) && (files::parsed_frame(plain)
            matches Some((id, offset, _)) && s@.uploads.contains_key(id) && s@.uploads[id].offset
            == offset) ==> r is Write,
{
    if crypto::opened_message(s@.key_in, raw@) is Some {
        controller::lemma_sealed_is_no_goodbye(s@.key_in, raw@);
    }
}

/// At the end of a session the screen is shown again exactly when it is dark, and mouse and
/// keyboard are freed exactly when they are locked; a second end undoes nothing more.
pub proof fn law_end_undoes(
    s: &mut ManagedSession,
    c: Cleanup,
    t: &mut ManagedSession,
    again: Cleanup,
)
    requires
        call_ensures(ManagedSession::finish, (s,), c),
        old(t)@ == final(s)@,
        call_ensures(ManagedSession::finish, (t,), again),
    ensures
        c.hide_blank == old(s)@.blanked,
        c.unblock_input == old(s)@.locked,
        !again.hide_blank && !again.unblock_input,
{
}

/// A new session starts with nothing dark, nothing locked, no transfer and nothing queued; it
/// shares the clipboard, captures the monitor that it was given, and makes its encoder with the
/// first frame, which it takes at once.
pub proof fn law_session_starts_afresh(
    key: &[u8; 32],
    monitor: u32,
    clip_seq: u32,
    now: Duration,
    s: ManagedSession,
    w: u32,
    h: u32,
    p: FramePlan,
)
    requires
        now.ns() >= 2_000_000_000,
        call_ensures(ManagedSession::new, (key, monitor, clip_seq, now), s),
        call_ensures(ManagedSession::on_frame, (&s, w, h, now), p),
    ensures
        !s@.blanked && !s@.locked && s@.clip_sync,
        s@.queue.len() == 0 && s@.counter == 0,
        s@.monitor == monitor && s@.clip_seq == clip_seq,
        forall|id: u32|
            !#[trigger] s@.downloads.contains_key(id) && !#[trigger] s@.uploads.contains_key(id),
        p is EncodeWith,
        s@.quality.fps == 30 && s@.quality.bitrate == 4_000_000 && s@.quality.scale == 1,
{
    law_frames_keep_the_rate(&s, w, h, now, p);
}

/// Once its encoder runs, a session goes on with it, until something has it made anew.
pub proof fn law_encoder_runs_on(
    s: &mut ManagedSession,
    w: u32,
    h: u32,
    now: Duration,
    p: FramePlan,
)
    requires
        old(s).wf(),
        call_ensures(ManagedSession::encoder_started, (s,), ()),
        call_ensures(ManagedSession::on_frame, (final(s), w, h, now), p),
    ensures
        !(p is EncodeWith),
        final(s)@ == (Media { encoder: true, ..old(s)@ }),
{
}

/// Pieces leave in the order in which they were queued.
pub proof fn law_pieces_leave_in_order(
    s: &mut ManagedSession,
    first: Option<&Vec<u8>>,
    next: Option<&Vec<u8>>,
)
    requires
        old(s)@.queue.len() > 0,
        call_ensures(ManagedSession::next_piece, (old(s),), first),
        call_ensures(ManagedSession::piece_taken, (s,), ()),
        call_ensures(ManagedSession::next_piece, (final(s),), next),
    ensures
        first matches Some(p) && p@ == old(s)@.queue[0],
        old(s)@.queue.len() == 1 <==> next is None,
        next matches Some(p) ==> p@ == old(s)@.queue[1],
        final(s)@ == (Media { queue: final(s)@.queue, ..old(s)@ }),
{
}

/// A whole download: what the controller asks for is opened; what is read from the file goes out at
/// consecutive places from there; and when the file's end is reached the controller is told that it
/// is whole.
pub proof fn law_download_from_start_to_end(
    s: &mut ManagedSession,
    id: u32,
    offset: u64,
    size: u64,
    r: (u64, Json),
    t: &mut ManagedSession,
    data: &[u8],
    end: Option<Json>,
)
    requires
        offset < size,
        call_ensures(ManagedSession::on_download_opened, (s, id, offset, size), r),
        old(t)@ == final(s)@,
        data@.len() == size - offset,
        old(t)@.counter < u64::MAX,
        call_ensures(ManagedSession::on_download_data, (t, id, data), end),
    ensures
        r.0 == offset,
        final(t)@.queue == queued(old(s)@, files::file_frame(id, offset, data@)).queue,
        end matches Some(j) && j@ == done_value(id, true, None),
        !final(t)@.downloads.contains_key(id),
{
}

/// How far a download has come is known as long as it is under way.
pub proof fn law_download_is_known(s: &ManagedSession, id: u32, r: Option<Transfer>)
    requires
        call_ensures(ManagedSession::download, (s, id), r),
    ensures
        r is Some <==> s@.downloads.contains_key(id),
        r matches Some(t) ==> t.offset == s@.downloads[id].offset && t.size == s@.downloads[id].size,
{
}

/// A number within its bounds stays as it is, and any other goes to the nearer bound.
pub proof fn law_clamped(n: u32, lo: u32, hi: u32, r: u32)
    requires
        lo <= hi,
        call_ensures(clamped, (n, lo, hi), r),
    ensures
        lo <= r <= hi,
        lo <= n <= hi ==> r == n,
        n < lo ==> r == lo,
        n > hi ==> r == hi,
{
}

/// A message that is queued arrives at the controller whole, after all that was queued before, and is
/// counted.
pub proof fn law_message_is_queued(
    s: &mut ManagedSession,
    plain: &[u8],
    before: u64,
    after: u64,
)
    requires
        old(s)@.counter < u64::MAX,
        plain@.len() + 28 <= 65_535 * 16_384,
        call_ensures(ManagedSession::sealed, (old(s),), before),
        call_ensures(ManagedSession::queue_message, (s, plain), ()),
        call_ensures(ManagedSession::sealed, (final(s),), after),
    ensures
        after == before + 1,
        final(s)@.queue.take(old(s)@.queue.len() as int) == old(s)@.queue,
        forall|a: media::Assembly|
            (#[trigger] controller::deliver(
                old(s)@.key_out,
                a,
                final(s)@.queue.skip(old(s)@.queue.len() as int),
            )).frames == seq![plain@],
        final(s)@ == (Media {
            counter: final(s)@.counter,
            seq: final(s)@.seq,
            queue: final(s)@.queue,
            ..old(s)@
        }),
{
    let m = old(s)@;
    let sealed = crypto::sealed_message(m.key_out, m.counter, plain@);
    let added = media::messages(m.seq, sealed, media::DEFAULT_MAX_PAYLOAD as nat);
    assert(final(s)@.queue == m.queue + added);
    assert(final(s)@.queue.take(m.queue.len() as int) =~= m.queue);
}

} // verus!
