//! Frames of the screen, monitors, and following the desktop that has the input.

use crate::bytes;
use crate::json::{Json, Value};
use crate::text;
use crate::time::Duration;
use std::collections::VecDeque;
use vstd::prelude::*;
use vstd::string::*;

verus! {

/// A frame of the screen: BGRA, eight bits each, rows without gaps.
#[derive(Clone)]
pub struct Frame {
    pub width: u32,
    pub height: u32,
    pub data: Vec<u8>,
}

impl Frame {
    /// How many bytes a frame of this size has.
    pub open spec fn size(&self) -> int {
        self.width * self.height * 4
    }

    /// How many bytes a frame of this size should have.
    pub fn expected_len(&self) -> (n: usize)
        requires
            self.size() <= usize::MAX,
        ensures
            n == self.size(),
    {
        proof {
            assert(self.width * self.height <= self.width * self.height * 4) by (nonlinear_arith);
            assert(0 <= self.width * self.height) by (nonlinear_arith);
        }
        self.width as usize * self.height as usize * 4
    }
}

#[derive(Debug)]
pub struct CaptureError(pub String);

impl CaptureError {
    pub fn message(&self) -> (s: String)
        ensures
            s@ == "capture error: "@ + self.0@,
    {
        text::joined("capture error: ", self.0.as_str())
    }
}

/// The first `h` rows of `row` bytes out of rows that are `pitch` bytes apart.
pub open spec fn unpadded(src: Seq<u8>, row: int, pitch: int, h: nat) -> Seq<u8>
    decreases h,
{
    if h == 0 {
        Seq::empty()
    } else {
        unpadded(src, row, pitch, (h - 1) as nat) + src.subrange(
            (h - 1) * pitch,
            (h - 1) * pitch + row,
        )
    }
}

/// Cuts the gaps between the rows of a mapped texture.
pub fn unpad_rows(src: &[u8], width: u32, height: u32, pitch: usize) -> (f: Frame)
    requires
        width * 4 <= pitch,
        height > 0 ==> (height - 1) * pitch + width * 4 <= src@.len(),
    ensures
        f.width == width,
        f.height == height,
        f.data@ == unpadded(src@, width * 4, pitch as int, height as nat),
{
    let total: usize = src.len();
    let mut data: Vec<u8> = Vec::new();
    let mut y: u32 = 0;
    let mut start: usize = 0;
    while y < height
        invariant
            total == src@.len(),
            y <= height,
            width * 4 <= pitch,
            height > 0 ==> (height - 1) * pitch + width * 4 <= total,
            y < height ==> start == y * pitch,
            data@ == unpadded(src@, width * 4, pitch as int, y as nat),
        decreases height - y,
    {
        proof {
            assert(y * pitch <= (height - 1) * pitch) by (nonlinear_arith)
                requires
                    y <= height - 1,
                    0 <= pitch,
            ;
        }
        let row: usize = width as usize * 4;
        let part: Vec<u8> = bytes::copy_range(src, start, start + row);
        bytes::append_slice(&mut data, part.as_slice());
        y += 1;
        if y < height {
            proof {
                assert(y * pitch == (y - 1) * pitch + pitch) by (nonlinear_arith);
                assert(y * pitch <= (height - 1) * pitch) by (nonlinear_arith)
                    requires
                        y <= height - 1,
                        0 <= pitch,
                ;
            }
            start = start + pitch;
        }
    }
    Frame { width, height, data }
}

/// A monitor, as the controller names it.
#[derive(Debug)]
pub struct MonitorInfo {
    pub index: u32,
    pub name: String,
    pub width: u32,
    pub height: u32,
    pub is_primary: bool,
    /// The upper left corner on the desktop that spans all monitors.
    pub x: i32,
    pub y: i32,
}

/// The name of a monitor: the system's, or, when that is blank, a number.
pub open spec fn monitor_name_of(name: Seq<char>, index: u32) -> Seq<char> {
    if text::trim(name).len() == 0 {
        "Монітор "@ + text::decimal((index + 1) as nat)
    } else {
        name
    }
}

pub fn monitor_name(name: String, index: u32) -> (r: String)
    ensures
        r@ == monitor_name_of(name@, index),
{
    let v: Vec<char> = text::to_chars(name.as_str());
    let (a, b) = text::trim_range(v.as_slice(), 0, v.len());
    proof {
        assert(v@.subrange(0, v@.len() as int) =~= v@);
        assert(v@.subrange(a as int, b as int).len() == b - a);
    }
    if a == b {
        let digits: String = text::to_decimal(index as u64 + 1);
        text::joined("Монітор ", digits.as_str())
    } else {
        name
    }
}

/// The extent of an axis from `lo` to `hi`, never negative.
pub open spec fn extent(lo: i32, hi: i32) -> int {
    if hi > lo {
        hi - lo
    } else {
        0
    }
}

fn extent_of(lo: i32, hi: i32) -> (n: u32)
    ensures
        n == extent(lo, hi),
{
    if hi > lo {
        (hi as i64 - lo as i64) as u32
    } else {
        0
    }
}

/// A monitor by its rectangle on the desktop. The one at the origin is the primary one.
pub fn monitor_from_rect(
    index: u32,
    name: String,
    left: i32,
    top: i32,
    right: i32,
    bottom: i32,
) -> (m: MonitorInfo)
    ensures
        m.index == index,
        m.name@ == monitor_name_of(name@, index),
        m.width == extent(left, right),
        m.height == extent(top, bottom),
        m.is_primary == (left == 0 && top == 0),
        m.x == left && m.y == top,
{
    MonitorInfo {
        index,
        name: monitor_name(name, index),
        width: extent_of(left, right),
        height: extent_of(top, bottom),
        is_primary: left == 0 && top == 0,
        x: left,
        y: top,
    }
}

/// A monitor by what the graphics system says of it; what it does not say is zero, blank or
/// false.
pub fn monitor_from_parts(
    index: u32,
    name: Option<String>,
    width: Option<u32>,
    height: Option<u32>,
    number: Option<usize>,
    primary: Option<usize>,
) -> (m: MonitorInfo)
    ensures
        m.index == index,
        m.name@ == monitor_name_of(
            match name {
                Some(n) => n@,
                None => Seq::empty(),
            },
            index,
        ),
        m.width == (match width {
            Some(w) => w,
            None => 0,
        }),
        m.height == (match height {
            Some(h) => h,
            None => 0,
        }),
        m.is_primary == (number matches Some(n) && n == (match primary {
            Some(p) => p,
            None => 0,
        })),
        m.x == 0 && m.y == 0,
{
    let first: usize = match primary {
        Some(p) => p,
        None => 0,
    };
    MonitorInfo {
        index,
        name: monitor_name(
            match name {
                Some(n) => n,
                None => String::new(),
            },
            index,
        ),
        width: match width {
            Some(w) => w,
            None => 0,
        },
        height: match height {
            Some(h) => h,
            None => 0,
        },
        is_primary: match number {
            Some(n) => n == first,
            None => false,
        },
        x: 0,
        y: 0,
    }
}

/// The place of the first primary monitor in the list; the first place when there is none.
pub open spec fn primary_of(v: Seq<MonitorInfo>) -> int {
    if exists|i: int| 0 <= i < v.len() && (#[trigger] v[i]).is_primary {
        choose|i: int|
            0 <= i < v.len() && (#[trigger] v[i]).is_primary && forall|j: int|
                0 <= j < i ==> !(#[trigger] v[j]).is_primary
    } else {
        0
    }
}

pub fn primary_index(v: &Vec<MonitorInfo>) -> (r: usize)
    ensures
        r == primary_of(v@),
{
    let mut i: usize = 0;
    while i < v.len()
        invariant
            i <= v@.len(),
            forall|j: int| 0 <= j < i ==> !(#[trigger] v@[j]).is_primary,
        decreases v@.len() - i,
    {
        if v[i].is_primary {
            proof {
                let c = primary_of(v@);
                assert(v@[i as int].is_primary);
                assert(0 <= c < v@.len() && v@[c].is_primary && forall|j: int|
                    0 <= j < c ==> !(#[trigger] v@[j]).is_primary);
            }
            return i;
        }
        i += 1;
    }
    0
}

/// A monitor as JSON.
pub open spec fn monitor_json(m: MonitorInfo) -> Value {
    Value::Obj(
        seq![
            ("index"@, Value::Uint(m.index as u64)),
            ("name"@, Value::Str(m.name@)),
            ("w"@, Value::Uint(m.width as u64)),
            ("h"@, Value::Uint(m.height as u64)),
            ("primary"@, Value::Bool(m.is_primary)),
        ],
    )
}

/// The monitors and the active one, as JSON.
pub open spec fn monitors_json(v: Seq<MonitorInfo>, active: u32) -> Value {
    Value::Obj(
        seq![
            ("monitors"@, Value::Arr(v.map_values(|m: MonitorInfo| monitor_json(m)))),
            ("active"@, Value::Uint(active as u64)),
        ],
    )
}

impl MonitorInfo {
    pub fn to_json(&self) -> (j: Json)
        ensures
            j@ == monitor_json(*self),
    {
        let j = Json::empty().with("index", Json::Uint(self.index as u64)).with(
            "name",
            Json::text(self.name.as_str()),
        ).with("w", Json::Uint(self.width as u64)).with("h", Json::Uint(self.height as u64)).with(
            "primary",
            Json::Bool(self.is_primary),
        );
        proof {
            assert(j@->Obj_0 =~= monitor_json(*self)->Obj_0);
        }
        j
    }
}

/// The control message that lists the monitors and names the active one.
pub fn monitor_control(v: &Vec<MonitorInfo>, active: u32) -> (j: Json)
    ensures
        j@ == monitors_json(v@, active),
{
    let mut list: Vec<Json> = Vec::new();
    let mut i: usize = 0;
    while i < v.len()
        invariant
            i <= v@.len(),
            list@.len() == i,
            forall|k: int| 0 <= k < i ==> (#[trigger] list@[k])@ == monitor_json(v@[k]),
        decreases v@.len() - i,
    {
        list.push(v[i].to_json());
        i += 1;
    }
    let arr = Json::Arr(list);
    proof {
        assert(arr@->Arr_0 =~= v@.map_values(|m: MonitorInfo| monitor_json(m)));
    }
    let j = Json::empty().with("monitors", arr).with("active", Json::Uint(active as u64));
    proof {
        assert(j@->Obj_0 =~= monitors_json(v@, active)->Obj_0);
    }
    j
}

/// How often to look which desktop has the input, in nanoseconds.
pub const DESKTOP_POLL_NANOS: u128 = 200_000_000;

/// Follows the desktop that has the input, and the monitor that is asked for: both need the
/// capture to be made anew.
pub struct DesktopSource {
    /// The name of the desktop that the capture is bound to.
    pub current: String,
    /// Whether a capture is running.
    pub capturing: bool,
    /// The monitor that is captured.
    pub output: u32,
    pub last_poll: Duration,
}

/// What to do with the desktop that has the input.
#[derive(Clone, Copy, Debug, PartialEq, Eq, Structural)]
pub enum DesktopStep {
    /// Bind to it.
    Bind,
    /// Leave it.
    Leave,
}

/// How many captured frames wait for their consumer at most.
pub const FRAMES_KEPT: usize = 2;

/// The newest of these frames, as many as are kept.
pub open spec fn newest(s: Seq<Frame>) -> Seq<Frame> {
    if s.len() > FRAMES_KEPT {
        s.skip(s.len() - FRAMES_KEPT)
    } else {
        s
    }
}

/// Captured frames on their way to the consumer: new frames displace stale ones.
pub struct FrameQueue {
    frames: VecDeque<Frame>,
}

impl View for FrameQueue {
    type V = Seq<Frame>;

    closed spec fn view(&self) -> Seq<Frame> {
        self.frames@
    }
}

impl FrameQueue {
    pub fn new() -> (q: FrameQueue)
        ensures
            q@ == Seq::<Frame>::empty(),
    {
        FrameQueue { frames: VecDeque::new() }
    }

    /// Adds a frame; where too many wait, the oldest ones go.
    pub fn push(&mut self, frame: Frame)
        ensures
            final(self)@ == newest(old(self)@.push(frame)),
    {
        let ghost all = self@.push(frame);
        self.frames.push_back(frame);
        let ghost mut gone: int = 0;
        proof {
            assert(all.skip(0) =~= all);
        }
        while self.frames.len() > FRAMES_KEPT
            invariant
                0 <= gone <= all.len(),
                self@ == all.skip(gone),
                gone > 0 ==> self@.len() >= FRAMES_KEPT,
            decreases self@.len(),
        {
            let _ = self.frames.pop_front();
            proof {
                gone = gone + 1;
                assert(self@ =~= all.skip(gone));
            }
        }
    }

    /// The frame that has waited longest.
    pub fn pop(&mut self) -> (r: Option<Frame>)
        ensures
            match r {
                Some(f) => old(self)@.len() > 0 && f == old(self)@[0] && final(self)@ == old(
                    self,
                )@.skip(1),
                None => old(self)@.len() == 0 && final(self)@ == old(self)@,
            },
    {
        let ghost before = self@;
        let r: Option<Frame> = self.frames.pop_front();
        proof {
            if r is Some {
                assert(self@ =~= before.skip(1));
            }
        }
        r
    }
}

/// A consumer that is behind misses the oldest frames only: what waits is always the newest of all
/// that came.
pub proof fn law_newest_frames_wait(s: Seq<Frame>, frame: Frame)
    ensures
        newest(newest(s).push(frame)) == newest(s.push(frame)),
        newest(s.push(frame)).len() <= FRAMES_KEPT,
        newest(s.push(frame)).last() == frame,
{
    assert(newest(newest(s).push(frame)) =~= newest(s.push(frame)));
}

/// What became of waiting for a frame.
#[derive(Clone, Copy, Debug, PartialEq, Eq, Structural)]
pub enum FrameOutcome {
    /// It was passed on.
    Passed,
    /// None came in time.
    Timeout,
    /// The capture is lost.
    Lost,
    /// The consumer is gone.
    NoConsumer,
}

impl DesktopSource {
    pub fn new(now: Duration) -> (s: DesktopSource)
        ensures
            s.current@.len() == 0,
            !s.capturing,
            s.output == u32::MAX,
            s.last_poll == now,
    {
        DesktopSource {
            current: String::new(),
            capturing: false,
            output: u32::MAX,
            last_poll: now,
        }
    }

    /// Starts a turn with the monitor that is asked for; says whether to look for the desktop. That
    /// is done when nothing is captured, and every so often.
    pub fn begin(&mut self, desired: u32, now: Duration) -> (poll: bool)
        ensures
            final(self).output == desired,
            final(self).current == old(self).current,
            final(self).capturing == (old(self).capturing && desired == old(self).output),
            poll == (!final(self).capturing || crate::time::elapsed(
                now.ns(),
                old(self).last_poll.ns(),
            ) >= DESKTOP_POLL_NANOS),
            final(self).last_poll == (if poll { now } else { old(self).last_poll }),
    {
        if desired != self.output {
            self.output = desired;
            self.capturing = false;
        }
        if !self.capturing || now.since(self.last_poll).at_least(
            Duration { nanos: DESKTOP_POLL_NANOS },
        ) {
            self.last_poll = now;
            true
        } else {
            false
        }
    }

    /// What to do with the desktop of this name.
    pub fn on_desktop(&self, name: &str) -> (step: DesktopStep)
        ensures
            step == (if name@ != self.current@ { DesktopStep::Bind } else { DesktopStep::Leave }),
    {
        if text::same(name, self.current.as_str()) {
            DesktopStep::Leave
        } else {
            DesktopStep::Bind
        }
    }

    /// The thread is bound to the desktop of this name: the capture has to be made anew.
    pub fn on_bound(&mut self, name: String)
        ensures
            final(self).current == name,
            !final(self).capturing,
            final(self).output == old(self).output,
            final(self).last_poll == old(self).last_poll,
    {
        self.current = name;
        self.capturing = false;
    }

    /// A capture was made, or could not be.
    pub fn on_created(&mut self, ok: bool)
        ensures
            final(self).capturing == ok,
            final(self).current == old(self).current,
            final(self).output == old(self).output,
            final(self).last_poll == old(self).last_poll,
    {
        self.capturing = ok;
    }

    /// What became of waiting for a frame; says whether to go on.
    pub fn on_frame(&mut self, outcome: FrameOutcome) -> (go_on: bool)
        ensures
            go_on == (outcome != FrameOutcome::NoConsumer),
            final(self).capturing == (outcome == FrameOutcome::Passed || outcome
                == FrameOutcome::Timeout),
            final(self).current == old(self).current,
            final(self).output == old(self).output,
            final(self).last_poll == old(self).last_poll,
    {
        match outcome {
            FrameOutcome::Passed => {
                self.capturing = true;
                true
            },
            FrameOutcome::Timeout => {
                self.capturing = true;
                true
            },
            FrameOutcome::Lost => {
                self.capturing = false;
                true
            },
            FrameOutcome::NoConsumer => {
                self.capturing = false;
                false
            },
        }
    }
}

/// A mapped texture's picture is kept, pixel for pixel: the byte at a place in a row is that of the
/// texture's row, and the frame is just as long as its size says.
pub proof fn law_picture_is_kept(
    src: &[u8],
    width: u32,
    height: u32,
    pitch: usize,
    f: Frame,
    y: int,
    x: int,
)
    requires
        width * 4 <= pitch,
        height > 0 ==> (height - 1) * pitch + width * 4 <= src@.len(),
        call_ensures(unpad_rows, (src, width, height, pitch), f),
        0 <= y < height,
        0 <= x < width * 4,
    ensures
        f.width == width && f.height == height,
        f.data@.len() == height * (width * 4),
        f.data@[y * (width * 4) + x] == src@[y * pitch + x],
{
    lemma_unpadded(src@, width * 4, pitch as int, height as nat, y, x);
}

proof fn lemma_unpadded(src: Seq<u8>, row: int, pitch: int, h: nat, y: int, x: int)
    requires
        0 < row <= pitch,
        h > 0 ==> (h - 1) * pitch + row <= src.len(),
        0 <= x < row,
        0 <= y,
    ensures
        unpadded(src, row, pitch, h).len() == h * row,
        y < h ==> y * row + x < h * row && unpadded(src, row, pitch, h)[y * row + x] == src[y * pitch
            + x],
    decreases h,
{
    if h > 0 {
        let n = (h - 1) as nat;
        assert(n * pitch == (h - 1) * pitch);
        assert(n > 0 ==> (n - 1) * pitch + row <= n * pitch) by (nonlinear_arith)
            requires
                row <= pitch,
        ;
        lemma_unpadded(src, row, pitch, n, y, x);
        assert(h * row == n * row + row) by (nonlinear_arith)
            requires
                h == n + 1,
        ;
        assert(0 <= n * pitch) by (nonlinear_arith)
            requires
                0 <= n,
                0 <= pitch,
        ;
        if y < n {
            assert((y + 1) * row <= n * row) by (nonlinear_arith)
                requires
                    y + 1 <= n,
                    0 <= row,
            ;
            assert((y + 1) * row == y * row + row) by (nonlinear_arith);
        }
        assert(0 <= y * row) by (nonlinear_arith)
            requires
                0 <= y,
                0 <= row,
        ;
    } else {
        assert(0 * row == 0) by (nonlinear_arith);
    }
}

/// A monitor lies where its rectangle lies and is as large; the one at the origin is the primary
/// one; a name that says something is kept, and any other is replaced by the monitor's number,
/// counted from one.
pub proof fn law_monitor_is_its_rectangle(
    index: u32,
    name: String,
    left: i32,
    top: i32,
    right: i32,
    bottom: i32,
    m: MonitorInfo,
)
    requires
        call_ensures(monitor_from_rect, (index, name, left, top, right, bottom), m),
    ensures
        m.index == index,
        m.x == left && m.y == top,
        left <= right ==> m.width == right - left,
        top <= bottom ==> m.height == bottom - top,
        left > right ==> m.width == 0,
        top > bottom ==> m.height == 0,
        m.is_primary <==> left == 0 && top == 0,
        text::trim(name@).len() > 0 ==> m.name@ == name@,
        text::trim(name@).len() == 0 ==> m.name@ == "Монітор "@ + text::decimal((index + 1) as nat),
{
}

/// What the graphics system says of a monitor is kept.
pub proof fn law_monitor_is_its_parts(
    index: u32,
    name: String,
    width: u32,
    height: u32,
    number: usize,
    primary: usize,
    m: MonitorInfo,
)
    requires
        call_ensures(
            monitor_from_parts,
            (index, Some(name), Some(width), Some(height), Some(number), Some(primary)),
            m,
        ),
        text::trim(name@).len() > 0,
    ensures
        m.index == index && m.name@ == name@ && m.width == width && m.height == height,
        m.is_primary <==> number == primary,
{
}

/// The monitor to start with is the first primary one; without one, the first of all.
pub proof fn law_primary_comes_first(v: &Vec<MonitorInfo>, r: usize, i: int)
    requires
        call_ensures(primary_index, (v,), r),
        0 <= i < v@.len(),
    ensures
        v@[i].is_primary ==> r <= i && v@[r as int].is_primary,
        v@.len() > 0 && !v@[r as int].is_primary ==> r == 0,
        r < v@.len(),
{
    let s = v@;
    if exists|k: int| 0 <= k < s.len() && (#[trigger] s[k]).is_primary {
        let k = choose|k: int| 0 <= k < s.len() && (#[trigger] s[k]).is_primary;
        lemma_first_primary(s, k);
        let c = primary_of(s);
        assert(0 <= c < s.len() && s[c].is_primary && forall|j: int|
            0 <= j < c ==> !(#[trigger] s[j]).is_primary);
        if s[i].is_primary && i < c {
            assert(!s[i].is_primary);
        }
    }
}

proof fn lemma_first_primary(s: Seq<MonitorInfo>, k: int)
    requires
        0 <= k < s.len(),
        s[k].is_primary,
    ensures
        exists|i: int|
            0 <= i < s.len() && (#[trigger] s[i]).is_primary && forall|j: int|
                0 <= j < i ==> !(#[trigger] s[j]).is_primary,
    decreases k,
{
    if exists|j: int| 0 <= j < k && (#[trigger] s[j]).is_primary {
        let j = choose|j: int| 0 <= j < k && (#[trigger] s[j]).is_primary;
        lemma_first_primary(s, j);
    } else {
        assert(s[k].is_primary && forall|j: int| 0 <= j < k ==> !(#[trigger] s[j]).is_primary);
    }
}

/// Whether the JSON of a monitor gives its number, name, size and whether it is the primary one.
pub open spec fn tells_monitor(v: Value, m: MonitorInfo) -> bool {
    &&& crate::json::uint_field(v, "index"@) == Some(m.index as u64)
    &&& crate::json::str_field(v, "name"@) == Some(m.name@)
    &&& crate::json::uint_field(v, "w"@) == Some(m.width as u64)
    &&& crate::json::uint_field(v, "h"@) == Some(m.height as u64)
    &&& crate::json::bool_field(v, "primary"@) == Some(m.is_primary)
}

proof fn lemma_tells_monitor(m: MonitorInfo)
    ensures
        tells_monitor(monitor_json(m), m),
{
    let v = monitor_json(m);
    reveal_strlit("index");
    reveal_strlit("name");
    reveal_strlit("w");
    reveal_strlit("h");
    reveal_strlit("primary");
    assert("index"@.len() == 5 && "name"@.len() == 4 && "primary"@.len() == 7);
    assert("w"@.len() == 1 && "h"@.len() == 1 && "w"@[0] != "h"@[0]);
    crate::json::lemma_field_at(v, "index"@, 0);
    crate::json::lemma_field_at(v, "name"@, 1);
    crate::json::lemma_field_at(v, "w"@, 2);
    crate::json::lemma_field_at(v, "h"@, 3);
    crate::json::lemma_field_at(v, "primary"@, 4);
}

/// Who reads the list of monitors gets every monitor at its place, and no other, and the active
/// one.
pub proof fn law_monitors_are_read_back(list: &Vec<MonitorInfo>, active: u32, j: Json)
    requires
        call_ensures(monitor_control, (list, active), j),
    ensures
        crate::json::field(j@, "monitors"@) matches Some(Value::Arr(all)) && {
            &&& all.len() == list@.len()
            &&& forall|i: int| 0 <= i < all.len() ==> tells_monitor(#[trigger] all[i], list@[i])
        },
        crate::json::uint_field(j@, "active"@) == Some(active as u64),
{
    reveal_strlit("monitors");
    reveal_strlit("active");
    assert("monitors"@.len() != "active"@.len());
    crate::json::lemma_field_at(j@, "monitors"@, 0);
    crate::json::lemma_field_at(j@, "active"@, 1);
    let all = crate::json::field(j@, "monitors"@)->0->Arr_0;
    assert forall|i: int| 0 <= i < all.len() implies tells_monitor(#[trigger] all[i], list@[i]) by {
        lemma_tells_monitor(list@[i]);
    }
}

/// The frame that was captured last waits, whatever waited before; at most one older one waits with
/// it; and what is taken is the older one first.
pub proof fn law_newest_frame_waits(
    q: &mut FrameQueue,
    frame: Frame,
    p: &mut FrameQueue,
    r: Option<Frame>,
)
    requires
        call_ensures(FrameQueue::push, (q, frame), ()),
        *old(p) == *final(q),
        call_ensures(FrameQueue::pop, (p,), r),
    ensures
        1 <= final(q)@.len() <= 2,
        final(q)@.last() == frame,
        old(q)@.len() > 0 ==> final(q)@.len() == 2 && final(q)@[0] == old(q)@.last(),
        old(q)@.len() > 0 ==> r == Some(old(q)@.last()) && final(p)@ == seq![frame],
        old(q)@.len() == 0 ==> r == Some(frame) && final(p)@.len() == 0,
{
    if old(q)@.len() > 0 {
        assert(final(p)@ =~= seq![frame]);
    }
}

/// Which desktop has the input is looked for whenever nothing is captured, and otherwise five times
/// a second. Another monitor, another desktop and a lost capture each have the capture made anew; a
/// frame that does not come in time does not. It all ends when the consumer is gone.
pub proof fn law_desktop_is_followed(
    now: Duration,
    fresh: DesktopSource,
    s: &mut DesktopSource,
    desired: u32,
    at: Duration,
    look: bool,
    name: &str,
    step: DesktopStep,
    t: &mut DesktopSource,
    bound: String,
    u: &mut DesktopSource,
    outcome: FrameOutcome,
    go_on: bool,
    v: &mut DesktopSource,
    made: bool,
)
    requires
        call_ensures(DesktopSource::new, (now,), fresh),
        call_ensures(DesktopSource::begin, (s, desired, at), look),
        call_ensures(DesktopSource::on_desktop, (final(s), name), step),
        call_ensures(DesktopSource::on_bound, (t, bound), ()),
        call_ensures(DesktopSource::on_frame, (u, outcome), go_on),
        call_ensures(DesktopSource::on_created, (v, made), ()),
    ensures
        !fresh.capturing,
        final(s).output == desired,
        desired != old(s).output || !old(s).capturing ==> !final(s).capturing && look,
        desired == old(s).output && old(s).capturing ==> final(s).capturing && (look <==> at.ns() >= old(
            s,
        ).last_poll.ns() + 200_000_000),
        look ==> final(s).last_poll == at,
        !look ==> final(s).last_poll == old(s).last_poll,
        step == DesktopStep::Leave <==> name@ == old(s).current@,
        final(t).current@ == bound@ && !final(t).capturing && final(t).output == old(t).output,
        go_on <==> outcome != FrameOutcome::NoConsumer,
        outcome == FrameOutcome::Passed || outcome == FrameOutcome::Timeout ==> final(u).capturing,
        outcome == FrameOutcome::Lost ==> !final(u).capturing,
        final(u).output == old(u).output && final(u).current == old(u).current,
        final(v).capturing == made && final(v).output == old(v).output,
{
}

/// A frame cut out of a texture has just as many bytes as a frame of its size should have.
pub proof fn law_frame_is_whole(
    src: &[u8],
    width: u32,
    height: u32,
    pitch: usize,
    f: Frame,
    n: usize,
)
    requires
        width > 0,
        height > 0,
        width * 4 <= pitch,
        (height - 1) * pitch + width * 4 <= src@.len(),
        call_ensures(unpad_rows, (src, width, height, pitch), f),
        call_ensures(Frame::expected_len, (&f,), n),
    ensures
        f.data@.len() == n,
{
    lemma_unpadded(src@, width * 4, pitch as int, height as nat, 0, 0);
    assert(height * (width * 4) == width * height * 4) by (nonlinear_arith);
}

/// Who reads the JSON of a monitor gets the monitor; a queue of frames starts empty.
pub proof fn law_monitor_is_read_back(m: &MonitorInfo, j: Json, q: FrameQueue)
    requires
        call_ensures(MonitorInfo::to_json, (m,), j),
        call_ensures(FrameQueue::new, (), q),
    ensures
        tells_monitor(j@, *m),
        q@.len() == 0,
{
    lemma_tells_monitor(*m);
}

} // verus!
