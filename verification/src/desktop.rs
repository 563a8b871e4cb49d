//! The desktop shell's part in a session: file transfers on the controller's side, and what goes
//! to the page.

use crate::bytes;
use crate::files;
use crate::input::InputEvent;
use crate::json;
use crate::json::{Json, Value};
use crate::managed;
use crate::text;
use crate::time;
use crate::time::Duration;
use base64::Engine;
use std::collections::HashMap;
use vstd::prelude::*;
use vstd::string::*;

verus! {

broadcast use vstd::std_specs::hash::group_hash_axioms;

/// A download is reported to the page each time this much of it has come.
pub const REPORT_STEP: u64 = 524_288;

/// How far an upload may run ahead of what the managed side has acknowledged.
pub const UPLOAD_WINDOW: u64 = 1_048_576;

/// How long an upload waits for its first acknowledgement, in nanoseconds.
pub const UPLOAD_START_NANOS: u128 = 15_000_000_000;

/// Stands for an upload that was not yet acknowledged.
pub const NOT_ACKED: u64 = 0xFFFF_FFFF_FFFF_FFFF;

/// The characters of base64.
pub const BASE64_CHARS: &'static str =
    "ABCDEFGHIJKLMNOPQRSTUVWXYZabcdefghijklmnopqrstuvwxyz0123456789+/";

/// The base64 form of bytes: three bytes are four characters of six bits each, and the last group
/// is filled up with `=`.
pub open spec fn base64_of(s: Seq<u8>) -> Seq<char>
    decreases s.len(),
{
    let c = |n: int| BASE64_CHARS@[n];
    if s.len() == 0 {
        Seq::empty()
    } else if s.len() == 1 {
        seq![c(s[0] as int / 4), c((s[0] as int % 4) * 16), '=', '=']
    } else if s.len() == 2 {
        seq![
            c(s[0] as int / 4),
            c((s[0] as int % 4) * 16 + s[1] as int / 16),
            c((s[1] as int % 16) * 4),
            '=',
        ]
    } else {
        seq![
            c(s[0] as int / 4),
            c((s[0] as int % 4) * 16 + s[1] as int / 16),
            c((s[1] as int % 16) * 4 + s[2] as int / 64),
            c(s[2] as int % 64),
        ] + base64_of(s.skip(3))
    }
}

/// `base64::engine::general_purpose::STANDARD.encode`: base64 with the standard alphabet and
/// padding.
#[verifier::external_body]
fn base64_encode(data: &[u8]) -> (s: String)
    ensures
        s@ == base64_of(data@),
{
    base64::engine::general_purpose::STANDARD.encode(data)
}

/// What goes to the page for a frame: its base64 form.
pub fn to_page(frame: &[u8]) -> (s: String)
    ensures
        s@ == base64_of(frame@),
{
    base64_encode(frame)
}

/// How far a download has come, and how far it was last reported.
#[derive(Clone, Copy, Debug, PartialEq, Eq, Structural)]
pub struct Download {
    pub written: u64,
    pub announced: u64,
}

/// The transfers on the controller's side.
pub struct Files {
    pub down: Map<u32, Download>,
    /// Uploads and what the managed side has acknowledged of them.
    pub acked: Map<u32, u64>,
    /// The number of the last transfer.
    pub last_id: u32,
}

/// No download was reported further than it has come.
pub open spec fn reports_true(down: Map<u32, Download>) -> bool {
    forall|id: u32| #[trigger]
        down.contains_key(id) ==> down[id].announced <= down[id].written
}

/// The active transfers of the controller.
pub struct FileTransfers {
    down: HashMap<u32, Download>,
    up_acked: HashMap<u32, u64>,
    last_id: u32,
}

impl View for FileTransfers {
    type V = Files;

    closed spec fn view(&self) -> Files {
        Files { down: self.down@, acked: self.up_acked@, last_id: self.last_id }
    }
}

/// What to do with a message that the session delivered.
#[derive(Debug)]
pub enum FrameStep {
    /// Append data to the file of a download, and report back.
    Append { id: u32, data: Vec<u8> },
    /// Nothing: file data that no download waits for.
    Drop,
    /// A control message: decode it, hand it over, and send it to the page.
    Control,
    /// Send it to the page.
    Forward,
}

/// The message for the page that so much of a download has come.
pub open spec fn local_progress(id: u32, written: u64) -> Seq<char> {
    "{\"fsLocal\":{\"id\":"@ + text::decimal(id as nat) + ",\"written\":"@ + text::decimal(
        written as nat,
    ) + "}}"@
}

/// The number after `id`.
pub open spec fn id_after(id: u32) -> u32 {
    if id == u32::MAX {
        0
    } else {
        (id + 1) as u32
    }
}

/// The transfers after a control message: progress acknowledges an upload that goes on, an end
/// closes a download.
pub open spec fn after_control(f: Files, v: Value) -> Files {
    let g = match json::field(v, "fsProgress"@) {
        Some(p) => match (json::uint_field(p, "id"@), json::uint_field(p, "offset"@)) {
            (Some(id), Some(offset)) => acknowledged(f, (id % 0x1_0000_0000) as u32, offset),
            _ => f,
        },
        None => f,
    };
    match json::field(v, "fsDone"@) {
        Some(d) => match json::uint_field(d, "id"@) {
            Some(id) => Files { down: g.down.remove((id % 0x1_0000_0000) as u32), ..g },
            None => g,
        },
        None => g,
    }
}

/// The transfers after an acknowledgement. One that comes after the upload was cancelled counts for
/// nothing.
pub open spec fn acknowledged(f: Files, id: u32, offset: u64) -> Files {
    if f.acked.contains_key(id) {
        Files { acked: f.acked.insert(id, offset), ..f }
    } else {
        f
    }
}

/// The transfers after one was cancelled.
pub open spec fn cancelled(f: Files, id: u32) -> Files {
    Files { down: f.down.remove(id), acked: f.acked.remove(id), ..f }
}

impl FileTransfers {
    #[verifier::type_invariant]
    spec fn inv(self) -> bool {
        reports_true(self.down@)
    }

    pub fn new() -> (t: FileTransfers)
        ensures
            t@ == (Files { down: Map::empty(), acked: Map::empty(), last_id: 0 }),
    {
        FileTransfers { down: HashMap::new(), up_acked: HashMap::new(), last_id: 0 }
    }

    /// Sets how far a download has come.
    fn set_download(&mut self, id: u32, d: Download)
        requires
            d.announced <= d.written,
        ensures
            final(self)@ == (Files { down: old(self)@.down.insert(id, d), ..old(self)@ }),
    {
        proof {
            use_type_invariant(&*self);
        }
        let mut down: HashMap<u32, Download> = HashMap::new();
        std::mem::swap(&mut down, &mut self.down);
        down.insert(id, d);
        self.down = down;
    }

    /// Drops a download, if there is one with this number.
    fn drop_download(&mut self, id: u32)
        ensures
            final(self)@ == (Files { down: old(self)@.down.remove(id), ..old(self)@ }),
    {
        proof {
            use_type_invariant(&*self);
        }
        let mut down: HashMap<u32, Download> = HashMap::new();
        std::mem::swap(&mut down, &mut self.down);
        down.remove(&id);
        self.down = down;
    }

    /// Sets what was acknowledged of an upload.
    fn set_acked(&mut self, id: u32, offset: u64)
        ensures
            final(self)@ == (Files { acked: old(self)@.acked.insert(id, offset), ..old(self)@ }),
    {
        proof {
            use_type_invariant(&*self);
        }
        let mut acked: HashMap<u32, u64> = HashMap::new();
        std::mem::swap(&mut acked, &mut self.up_acked);
        acked.insert(id, offset);
        self.up_acked = acked;
    }

    /// Forgets an upload, if there is one with this number.
    fn drop_upload(&mut self, id: u32)
        ensures
            final(self)@ == (Files { acked: old(self)@.acked.remove(id), ..old(self)@ }),
    {
        proof {
            use_type_invariant(&*self);
        }
        let mut acked: HashMap<u32, u64> = HashMap::new();
        std::mem::swap(&mut acked, &mut self.up_acked);
        acked.remove(&id);
        self.up_acked = acked;
    }

    fn next_id(&mut self) -> (id: u32)
        ensures
            id == id_after(old(self)@.last_id),
            final(self)@ == (Files { last_id: id, ..old(self)@ }),
    {
        proof {
            use_type_invariant(&*self);
        }
        self.last_id = self.last_id.wrapping_add(1);
        self.last_id
    }

    /// What to do with a message that the session delivered.
    pub fn on_frame(&self, frame: &[u8]) -> (step: FrameStep)
        ensures
            if frame@.len() > 0 && frame@[0] == files::FILE_FRAME_MAGIC {
                match files::parsed_frame(frame@) {
                    Some((id, _, data)) => if self@.down.contains_key(id) {
                        step matches FrameStep::Append { id: i, data: d } && i == id && d@ == data
                    } else {
                        step is Drop
                    },
                    None => step is Drop,
                }
            } else if frame@.len() > 0 && frame@[0] == 0x7B {
                step is Control
            } else {
                step is Forward
            },
    {
        if frame.len() > 0 && frame[0] == files::FILE_FRAME_MAGIC {
            match files::parse_file_frame(frame) {
                Some((id, _, data)) => {
                    if self.down.contains_key(&id) {
                        FrameStep::Append { id, data: bytes::copy_bytes(data) }
                    } else {
                        FrameStep::Drop
                    }
                },
                None => FrameStep::Drop,
            }
        } else if frame.len() > 0 && frame[0] == 0x7B {
            FrameStep::Control
        } else {
            FrameStep::Forward
        }
    }

    /// How far a download has come.
    pub fn download(&self, id: u32) -> (r: Option<Download>)
        ensures
            match r {
                Some(d) => {
                    &&& self@.down.contains_key(id) && self@.down[id] == d
                    &&& d.announced <= d.written
                },
                None => !self@.down.contains_key(id),
            },
    {
        proof {
            use_type_invariant(self);
        }
        match self.down.get(&id) {
            Some(d) => Some(*d),
            None => None,
        }
    }

    /// `len` bytes were appended to a download. Gives the message for the page when enough has come
    /// since the last one.
    pub fn on_appended(&mut self, id: u32, len: usize) -> (report: Option<String>)
        requires
            old(self)@.down.contains_key(id),
            old(self)@.down[id].written + len <= u64::MAX,
        ensures
            ({
                let d = old(self)@.down[id];
                let written = (d.written + len) as u64;
                if written - d.announced >= REPORT_STEP {
                    &&& report matches Some(s) && s@ == local_progress(id, written)
                    &&& final(self)@ == (Files {
                        down: old(self)@.down.insert(
                            id,
                            Download { written, announced: written },
                        ),
                        ..old(self)@
                    })
                } else {
                    &&& report is None
                    &&& final(self)@ == (Files {
                        down: old(self)@.down.insert(id, Download { written, ..d }),
                        ..old(self)@
                    })
                }
            }),
    {
        match self.download(id) {
            Some(d) => {
                let written: u64 = d.written + len as u64;
                if written - d.announced >= REPORT_STEP {
                    self.set_download(id, Download { written, announced: written });
                    let mut s: String = "{\"fsLocal\":{\"id\":".to_owned();
                    let n: String = text::to_decimal(id as u64);
                    s.append(n.as_str());
                    s.append(",\"written\":");
                    let w: String = text::to_decimal(written);
                    s.append(w.as_str());
                    s.append("}}");
                    Some(s)
                } else {
                    self.set_download(id, Download { written, announced: d.announced });
                    None
                }
            },
            None => None,
        }
    }

    /// Takes a control message of the managed side.
    pub fn on_control(&mut self, v: &Json)
        ensures
            final(self)@ == after_control(old(self)@, v@),
    {
        if let Some(p) = v.get("fsProgress") {
            if let (Some(id), Some(offset)) = (p.get_u64("id"), p.get_u64("offset")) {
                let id: u32 = (id % 0x1_0000_0000) as u32;
                if self.up_acked.contains_key(&id) {
                    self.set_acked(id, offset);
                }
            }
        }
        if let Some(d) = v.get("fsDone") {
            if let Some(id) = d.get_u64("id") {
                self.drop_download((id % 0x1_0000_0000) as u32);
            }
        }
    }

    /// Starts a download into a file that already holds `existing` bytes: its number, and the
    /// request for the rest.
    pub fn start_download(&mut self, remote_path: String, existing: u64) -> (r: (u32, InputEvent))
        ensures
            r.0 == id_after(old(self)@.last_id),
            r.1 == (InputEvent::FsDownload { id: r.0, path: remote_path, offset: existing }),
            final(self)@ == (Files {
                last_id: r.0,
                down: old(self)@.down.insert(
                    r.0,
                    Download { written: existing, announced: existing },
                ),
                ..old(self)@
            }),
    {
        let id: u32 = self.next_id();
        self.set_download(id, Download { written: existing, announced: existing });
        (id, InputEvent::FsDownload { id, path: remote_path, offset: existing })
    }

    /// Announces a file of `size` bytes to the managed side: its number, and the announcement.
    pub fn start_upload(&mut self, remote_path: String, size: u64) -> (r: (u32, InputEvent))
        ensures
            r.0 == id_after(old(self)@.last_id),
            r.1 == (InputEvent::FsUploadStart { id: r.0, path: remote_path, size }),
            final(self)@ == (Files {
                last_id: r.0,
                acked: old(self)@.acked.insert(r.0, NOT_ACKED),
                ..old(self)@
            }),
    {
        let id: u32 = self.next_id();
        self.set_acked(id, NOT_ACKED);
        (id, InputEvent::FsUploadStart { id, path: remote_path, size })
    }

    /// What the managed side has acknowledged of an upload; nothing when it was cancelled.
    pub fn acked(&self, id: u32) -> (r: Option<u64>)
        ensures
            r == (if self@.acked.contains_key(id) {
                Some(self@.acked[id])
            } else {
                None
            }),
    {
        match self.up_acked.get(&id) {
            Some(a) => Some(*a),
            None => None,
        }
    }

    /// Cancels a transfer: what to tell the managed side.
    pub fn cancel(&mut self, id: u32) -> (e: InputEvent)
        ensures
            e == (InputEvent::FsCancel { id }),
            final(self)@ == cancelled(old(self)@, id),
    {
        self.drop_download(id);
        self.drop_upload(id);
        InputEvent::FsCancel { id }
    }
}

/// What an upload that waits for its first acknowledgement does.
#[derive(Clone, Copy, Debug, PartialEq, Eq, Structural)]
pub enum UploadStart {
    Wait,
    /// Send the file from this offset on.
    From(u64),
    /// Nothing is to be sent: cancelled, too late, or the managed side has it all.
    Nothing,
}

/// What an upload does next.
#[derive(Clone, Copy, Debug, PartialEq, Eq, Structural)]
pub enum UploadStep {
    /// Another piece would be too far ahead of the acknowledgements.
    Wait,
    /// Read the next data, at most one piece.
    Read,
    /// Cancelled.
    Stop,
}

/// Where an upload starts, given what was acknowledged of it: nothing is not yet known, but the
/// wait is bounded; what the managed side already holds is not sent again.
pub fn upload_start(acked: Option<u64>, size: u64, started: Duration, now: Duration) -> (r:
    UploadStart)
    ensures
        r == (if time::elapsed(now.ns(), started.ns()) > UPLOAD_START_NANOS {
            UploadStart::Nothing
        } else {
            match acked {
                None => UploadStart::Nothing,
                Some(a) => if a == NOT_ACKED {
                    UploadStart::Wait
                } else if a >= size {
                    UploadStart::Nothing
                } else {
                    UploadStart::From(a)
                },
            }
        }),
{
    if now.since(started).exceeds(Duration { nanos: UPLOAD_START_NANOS }) {
        return UploadStart::Nothing;
    }
    match acked {
        None => UploadStart::Nothing,
        Some(a) => if a == NOT_ACKED {
            UploadStart::Wait
        } else if a >= size {
            UploadStart::Nothing
        } else {
            UploadStart::From(a)
        },
    }
}

/// An upload under way.
#[derive(Debug)]
pub struct Upload {
    pub id: u32,
    /// Where it started.
    pub start: u64,
    /// How far it was sent.
    pub sent: u64,
}

/// How much of an upload is on its way, given what was acknowledged of it last.
pub open spec fn in_flight(u: Upload, acked: u64) -> int {
    u.sent - (if acked == NOT_ACKED {
        u.start
    } else {
        acked
    })
}

/// What an upload does next: with the next piece, no more than the window is on its way.
pub open spec fn upload_step(u: Upload, acked: Option<u64>) -> UploadStep {
    match acked {
        None => UploadStep::Stop,
        Some(a) => if in_flight(u, a) + files::FILE_CHUNK <= UPLOAD_WINDOW {
            UploadStep::Read
        } else {
            UploadStep::Wait
        },
    }
}

impl Upload {
    pub fn new(id: u32, start: u64) -> (u: Upload)
        ensures
            u == (Upload { id, start, sent: start }),
    {
        Upload { id, start, sent: start }
    }

    /// What to do next, given what was acknowledged.
    pub fn step(&self, acked: Option<u64>) -> (s: UploadStep)
        ensures
            s == upload_step(*self, acked),
    {
        match acked {
            None => UploadStep::Stop,
            Some(a) => {
                let known: u64 = if a == NOT_ACKED {
                    self.start
                } else {
                    a
                };
                if self.sent.saturating_sub(known) <= UPLOAD_WINDOW - files::FILE_CHUNK as u64 {
                    UploadStep::Read
                } else {
                    UploadStep::Wait
                }
            },
        }
    }

    /// Takes data read from the file, at most one piece: the frame to send.
    pub fn on_data(&mut self, data: &[u8]) -> (frame: Vec<u8>)
        requires
            data@.len() <= files::FILE_CHUNK,
            old(self).sent + data@.len() <= u64::MAX,
        ensures
            frame@ == files::file_frame(old(self).id, old(self).sent, data@),
            *final(self) == upload_after(*old(self), data@.len()),
    {
        let frame: Vec<u8> = files::encode_file_frame(self.id, self.sent, data);
        self.sent = self.sent + data.len() as u64;
        frame
    }
}

/// The upload after a frame with so much data.
pub open spec fn upload_after(u: Upload, len: nat) -> Upload {
    Upload { sent: (u.sent + len) as u64, ..u }
}

/// The password for the host mode: an empty one is none.
pub fn host_password(given: Option<String>) -> (r: Option<Vec<u8>>)
    ensures
        match given {
            Some(p) => if p@.len() == 0 {
                r is None
            } else {
                r matches Some(v) && v@ == vstd::utf8::encode_utf8(p@)
            },
            None => r is None,
        },
{
    match given {
        Some(p) => if p.as_str().is_empty() {
            None
        } else {
            Some(bytes::copy_bytes(p.as_str().as_bytes()))
        },
        None => None,
    }
}

/// What the managed side reports of a transfer, the controller reads: progress acknowledges the
/// upload of that number, if it goes on, up to that offset; an end closes the download of that
/// number.
pub proof fn law_reports_are_read(f: Files, id: u32, offset: u64, size: u64, done: bool, ok: bool)
    ensures
        after_control(f, managed::progress_value(id, offset, size, done)) == acknowledged(
            f,
            id,
            offset,
        ),
        after_control(f, managed::done_value(id, ok, None)) == (Files {
            down: f.down.remove(id),
            ..f
        }),
{
    reveal_with_fuel(json::first_field, 3);
    reveal_strlit("fsProgress");
    reveal_strlit("fsDone");
    reveal_strlit("id");
    reveal_strlit("offset");
    assert("fsProgress"@.len() != "fsDone"@.len());
    assert("id"@.len() != "offset"@.len());
    let p = managed::progress_value(id, offset, size, done);
    let inner = p->Obj_0[0].1;
    assert(inner->Obj_0.skip(1)[0] == inner->Obj_0[1]);
    assert(p->Obj_0.skip(1).len() == 0);
    let d = managed::done_value(id, ok, None);
    assert(d->Obj_0.skip(1).len() == 0);
}

/// The transfers after all these control messages, in this order.
pub open spec fn after_controls(f: Files, messages: Seq<Value>) -> Files
    decreases messages.len(),
{
    if messages.len() == 0 {
        f
    } else {
        after_control(after_controls(f, messages.drop_last()), messages.last())
    }
}

/// A cancelled transfer stays cancelled: whatever the managed side still reports, its upload stops
/// at the next step and its data is dropped.
pub proof fn law_cancel_is_final(f: Files, id: u32, messages: Seq<Value>, u: Upload)
    ensures
        ({
            let after = after_controls(cancelled(f, id), messages);
            !after.down.contains_key(id) && !after.acked.contains_key(id)
        }),
        upload_step(u, None) == UploadStep::Stop,
    decreases messages.len(),
{
    if messages.len() > 0 {
        law_cancel_is_final(f, id, messages.drop_last(), u);
    }
}

/// An upload never has more than the window on its way: after a piece that was read when the upload
/// said so, no more than the window is unacknowledged, then and after any further acknowledgement.
/// It waits only while more than the managed side's own window is unacknowledged, so that an
/// acknowledgement is still to come.
pub proof fn law_upload_window(u: Upload, acked: u64, len: nat, later: u64)
    requires
        len <= files::FILE_CHUNK,
        u.sent + len <= u64::MAX,
        u.start <= u.sent,
        later != NOT_ACKED && (if acked == NOT_ACKED {
            u.start
        } else {
            acked
        }) <= later,
    ensures
        upload_step(u, Some(acked)) == UploadStep::Read ==> {
            &&& in_flight(upload_after(u, len), acked) <= UPLOAD_WINDOW
            &&& in_flight(upload_after(u, len), later) <= UPLOAD_WINDOW
        },
        upload_step(u, Some(acked)) == UploadStep::Wait ==> in_flight(u, acked)
            > managed::ACK_WINDOW,
        in_flight(Upload { id: u.id, start: u.start, sent: u.start }, NOT_ACKED) == 0,
{
}

/// An upload starts where the managed side says that its file ends, and from there on the two go
/// in step: each frame that is sent carries the offset at which the managed side waits for data,
/// and after it was written both have moved on by the same length.
pub proof fn law_upload_in_step(
    m: managed::Media,
    u: Upload,
    raw: Seq<u8>,
    data: Seq<u8>,
)
    requires
        m.uploads.contains_key(u.id),
        m.uploads[u.id].offset == u.sent,
        u.sent + data.len() <= u64::MAX,
        crate::crypto::opened_message(m.key_in, raw) == Some(
            files::file_frame(u.id, u.sent, data),
        ),
    ensures
        managed::meaning(m, raw) == managed::Meaning::Write(u.id, u.sent, data),
        ({
            let after = managed::after_written(m, u.id, data.len());
            if u.sent + data.len() < m.uploads[u.id].size {
                &&& after.uploads.contains_key(u.id)
                &&& after.uploads[u.id].offset == u.sent + data.len()
            } else {
                !after.uploads.contains_key(u.id)
            }
        }),
{
    managed::law_upload_data_arrives(m, raw, u.id, u.sent, data);
}

/// What the session delivered goes where it belongs: file data to the download of its number, as it
/// is, and to no other; JSON to the control messages; anything else to the page.
pub proof fn law_frames_are_told_apart(t: &FileTransfers, frame: &[u8], step: FrameStep)
    requires
        call_ensures(FileTransfers::on_frame, (t, frame), step),
    ensures
        step is Control <==> frame@.len() > 0 && frame@[0] == 0x7B,
        step is Forward <==> frame@.len() == 0 || (frame@[0] != 0x7B && frame@[0] != 0xF7),
        step matches FrameStep::Append { id, data } ==> {
            &&& t@.down.contains_key(id)
            &&& exists|offset: u64| frame@ == #[trigger] files::file_frame(id, offset, data@)
        },
        forall|id: u32, offset: u64, data: Seq<u8>|
            frame@ == #[trigger] files::file_frame(id, offset, data) && t@.down.contains_key(id)
                ==> (step matches FrameStep::Append { id: i, data: d } && i == id && d@ == data),
{
    if let FrameStep::Append { id, data } = step {
        let f = frame@;
        let offset = bytes::be_value(f.subrange(5, 13)) as u64;
        lemma_frame_is_put_together(f);
        assert(f == files::file_frame(id, offset, data@));
    }
    assert forall|id: u32, offset: u64, data: Seq<u8>|
        frame@ == #[trigger] files::file_frame(id, offset, data) && t@.down.contains_key(
            id,
        ) implies (step matches FrameStep::Append { id: i, data: d } && i == id && d@ == data) by {
        files::law_file_frame_roundtrip(id, offset, data);
    }
}

/// A frame that can be taken apart is what its parts put together.
proof fn lemma_frame_is_put_together(f: Seq<u8>)
    requires
        files::parsed_frame(f) is Some,
    ensures
        files::parsed_frame(f) matches Some((id, offset, data)) && f == files::file_frame(
            id,
            offset,
            data,
        ),
{
    let (id, offset, data) = files::parsed_frame(f)->0;
    bytes::lemma_pow256();
    bytes::lemma_be_value_roundtrip(f.subrange(1, 5));
    bytes::lemma_be_value_roundtrip(f.subrange(5, 13));
    assert(f =~= seq![files::FILE_FRAME_MAGIC] + f.subrange(1, 5) + f.subrange(5, 13) + f.skip(13));
}

/// Every transfer gets a number of its own: the one after that of the last transfer. A download is
/// asked for from where the file at hand ends, and counts on from there; an upload is announced
/// with its length, and waits to hear from where on its data is wanted. Other transfers stay as
/// they are.
pub proof fn law_transfers_start(
    s: &mut FileTransfers,
    path: String,
    existing: u64,
    d: (u32, InputEvent),
    t: &mut FileTransfers,
    to: String,
    size: u64,
    u: (u32, InputEvent),
)
    requires
        call_ensures(FileTransfers::start_download, (s, path, existing), d),
        old(t)@ == final(s)@,
        call_ensures(FileTransfers::start_upload, (t, to, size), u),
    ensures
        d.0 != u.0,
        old(s)@.last_id < u32::MAX ==> d.0 == old(s)@.last_id + 1,
        d.1 matches InputEvent::FsDownload { id, path: p, offset } && id == d.0 && p@ == path@ && offset
            == existing,
        u.1 matches InputEvent::FsUploadStart { id, path: p, size: n } && id == u.0 && p@ == to@ && n
            == size,
        final(s)@.down.contains_key(d.0) && final(s)@.down[d.0].written == existing
            && final(s)@.down[d.0].announced == existing,
        forall|k: u32|
            k != d.0 ==> (#[trigger] final(s)@.down.contains_key(k) <==> old(s)@.down.contains_key(k)),
        final(s)@.acked == old(s)@.acked,
        final(t)@.down == final(s)@.down,
        forall|k: u32|
            k != u.0 ==> (#[trigger] final(t)@.acked.contains_key(k) <==> old(t)@.acked.contains_key(k)),
        final(t)@.acked.contains_key(u.0) && final(t)@.acked[u.0] == u64::MAX,
{
}

/// What was appended to a download counts. The page is told how much has come each time another
/// half megabyte has, and never of more than has come.
pub proof fn law_download_is_counted(
    s: &mut FileTransfers,
    id: u32,
    len: usize,
    report: Option<String>,
)
    requires
        call_ensures(FileTransfers::on_appended, (s, id, len), report),
        old(s)@.down.contains_key(id),
        old(s)@.down[id].written + len <= u64::MAX,
    ensures
        final(s)@.down.contains_key(id),
        final(s)@.down[id].written == old(s)@.down[id].written + len,
        report is Some <==> final(s)@.down[id].written - old(s)@.down[id].announced >= 524_288,
        report is Some ==> final(s)@.down[id].announced == final(s)@.down[id].written,
        report is None ==> final(s)@.down[id].announced == old(s)@.down[id].announced,
        report matches Some(t) ==> t@ == "{\"fsLocal\":{\"id\":"@ + text::decimal(id as nat)
            + ",\"written\":"@ + text::decimal(final(s)@.down[id].written as nat) + "}}"@,
        forall|k: u32|
            k != id ==> (#[trigger] final(s)@.down.contains_key(k) <==> old(s)@.down.contains_key(k)),
        final(s)@.acked == old(s)@.acked,
{
}

/// A control message acknowledges the upload that it names up to the offset that it gives, where
/// that upload goes on, and closes the download that it says has ended; no other transfer is
/// touched.
pub proof fn law_control_is_taken(
    s: &mut FileTransfers,
    id: u32,
    offset: u64,
    size: u64,
    whole: bool,
    p: Json,
    t: &mut FileTransfers,
    ok: bool,
    err: Option<&str>,
    e: Json,
    k: u32,
)
    requires
        call_ensures(managed::progress_message, (id, offset, size, whole), p),
        call_ensures(FileTransfers::on_control, (s, &p), ()),
        call_ensures(managed::done_message, (id, ok, err), e),
        call_ensures(FileTransfers::on_control, (t, &e), ()),
    ensures
        final(s)@.acked.contains_key(k) <==> old(s)@.acked.contains_key(k),
        old(s)@.acked.contains_key(id) ==> final(s)@.acked[id] == offset,
        k != id && old(s)@.acked.contains_key(k) ==> final(s)@.acked[k] == old(s)@.acked[k],
        final(s)@.down == old(s)@.down,
        !final(t)@.down.contains_key(id),
        k != id ==> (final(t)@.down.contains_key(k) <==> old(t)@.down.contains_key(k)),
        k != id && old(t)@.down.contains_key(k) ==> final(t)@.down[k] == old(t)@.down[k],
        final(t)@.acked == old(t)@.acked,
{
    managed::law_progress_is_read_back(id, offset, size, whole, p);
    managed::law_end_is_read_back(id, ok, err, e);
    reveal_strlit("fsProgress");
    reveal_strlit("fsDone");
    assert("fsProgress"@.len() != "fsDone"@.len());
    reveal_with_fuel(json::first_field, 3);
    assert(p@->Obj_0.len() == 1 && p@->Obj_0.skip(1).len() == 0);
    assert(e@->Obj_0.len() == 1 && e@->Obj_0.skip(1).len() == 0);
}

/// A transfer that is cancelled is over here, whichever it was, and the managed side is told so; no
/// other one is touched.
pub proof fn law_cancel(s: &mut FileTransfers, id: u32, e: InputEvent, k: u32, acked: Option<u64>)
    requires
        call_ensures(FileTransfers::cancel, (s, id), e),
        call_ensures(FileTransfers::acked, (final(s), id), acked),
    ensures
        e == (InputEvent::FsCancel { id }),
        !final(s)@.down.contains_key(id) && !final(s)@.acked.contains_key(id),
        acked is None,
        k != id ==> (final(s)@.down.contains_key(k) <==> old(s)@.down.contains_key(k)),
        k != id ==> (final(s)@.acked.contains_key(k) <==> old(s)@.acked.contains_key(k)),
        k != id && old(s)@.acked.contains_key(k) ==> final(s)@.acked[k] == old(s)@.acked[k],
        k != id && old(s)@.down.contains_key(k) ==> final(s)@.down[k] == old(s)@.down[k],
{
}

/// An upload starts from what the managed side says that it holds, if that is not all; waits for
/// that word for a quarter of a minute; and sends nothing when it was cancelled meanwhile.
pub proof fn law_upload_waits_for_its_start(
    acked: Option<u64>,
    size: u64,
    started: Duration,
    now: Duration,
    r: UploadStart,
)
    requires
        call_ensures(upload_start, (acked, size, started, now), r),
    ensures
        ({
            let in_time = now.ns() <= started.ns() + 15_000_000_000;
            &&& r is Wait <==> in_time && acked == Some(u64::MAX)
            &&& r is From <==> in_time && acked is Some && acked->0 != u64::MAX && acked->0 < size
            &&& r matches UploadStart::From(at) ==> Some(at) == acked
        }),
{
}

/// An upload sends its file in order: each frame begins where the one before it ended, the first
/// one at the start, and no frame is sent while more than the window would be on its way.
pub proof fn law_upload_sends_in_order(
    id: u32,
    start: u64,
    fresh: Upload,
    acked: u64,
    step: UploadStep,
    u: &mut Upload,
    data: &[u8],
    frame: Vec<u8>,
    v: &mut Upload,
    more: &[u8],
    next: Vec<u8>,
)
    requires
        call_ensures(Upload::new, (id, start), fresh),
        call_ensures(Upload::on_data, (u, data), frame),
        old(u).sent + data@.len() <= u64::MAX,
        *old(v) == *final(u),
        call_ensures(Upload::on_data, (v, more), next),
        call_ensures(Upload::step, (old(u), Some(acked)), step),
        acked != u64::MAX && acked <= old(u).sent,
    ensures
        fresh.id == id && fresh.start == start && fresh.sent == start,
        frame@ == files::file_frame(old(u).id, old(u).sent, data@),
        next@ == files::file_frame(old(u).id, (old(u).sent + data@.len()) as u64, more@),
        step is Read <==> old(u).sent - acked + 32_768 <= 1_048_576,
        !(step is Read) ==> step is Wait,
{
}

/// The host mode takes the password that was given, letter for letter; an empty one is none.
pub proof fn law_host_password(given: Option<String>, r: Option<Vec<u8>>)
    requires
        call_ensures(host_password, (given,), r),
    ensures
        r is Some <==> given is Some && (given->0)@.len() > 0,
        r matches Some(v) ==> v@ == vstd::utf8::encode_utf8((given->0)@),
{
}

/// An upload that was cancelled stops. One of which nothing was acknowledged yet counts from where
/// it started: it reads on as long as what it has sent, with one more piece, stays within the
/// window.
pub proof fn law_upload_step(u: &Upload, stopped: UploadStep, first: UploadStep)
    requires
        call_ensures(Upload::step, (u, None), stopped),
        call_ensures(Upload::step, (u, Some(u64::MAX)), first),
        u.start <= u.sent,
    ensures
        stopped is Stop,
        first is Read <==> u.sent - u.start + 32_768 <= 1_048_576,
        !(first is Read) ==> first is Wait,
{
}

/// At first there are no transfers; how far a download has come is known as long as it goes on.
pub proof fn law_downloads_are_known(
    fresh: FileTransfers,
    id: u32,
    none: Option<Download>,
    t: &FileTransfers,
    r: Option<Download>,
    acked: Option<u64>,
)
    requires
        call_ensures(FileTransfers::new, (), fresh),
        call_ensures(FileTransfers::download, (&fresh, id), none),
        call_ensures(FileTransfers::download, (t, id), r),
        call_ensures(FileTransfers::acked, (t, id), acked),
    ensures
        none is None,
        r is Some <==> t@.down.contains_key(id),
        r matches Some(d) ==> d == t@.down[id] && d.announced <= d.written,
        acked is Some <==> t@.acked.contains_key(id),
        acked matches Some(a) ==> a == t@.acked[id],
{
}

/// A frame goes to the page in base64: four characters for every three bytes that were begun.
pub proof fn law_page_gets_base64(frame: &[u8], s: String)
    requires
        call_ensures(to_page, (frame,), s),
    ensures
        s@.len() == 4 * ((frame@.len() + 2) / 3),
{
    lemma_base64_len(frame@);
}

proof fn lemma_base64_len(s: Seq<u8>)
    ensures
        base64_of(s).len() == 4 * ((s.len() + 2) / 3),
    decreases s.len(),
{
    if s.len() >= 3 {
        lemma_base64_len(s.skip(3));
    }
}

} // verus!
