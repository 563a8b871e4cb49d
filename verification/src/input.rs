//! Input events from the controller, and what the managed side injects for them.

use vstd::prelude::*;

verus! {

#[derive(Clone, Copy, Debug, PartialEq, Eq, Structural)]
pub enum MouseButton {
    Left,
    Right,
    Middle,
}

/// What the controller sends: input, and requests to the media loop.
#[derive(Clone, Debug, PartialEq)]
pub enum InputEvent {
    /// The pointer's place, as parts of 65535 of the screen's width and height.
    MouseMove { x: u16, y: u16 },
    MouseButton { button: MouseButton, down: bool },
    /// Wheel movement in units of a 120th of a notch; nothing for an axis that did not move.
    Scroll { dx: Option<i32>, dy: Option<i32> },
    /// A key by its virtual code.
    Key { code: u32, down: bool },
    /// Ceilings of the quality: frames per second, bits per second, divisor of the resolution.
    Quality { fps: u32, bitrate: u32, scale: u32 },
    /// Capture another monitor.
    Monitor { index: u32 },
    /// List a directory; the empty path stands for the drives.
    FsList { path: String },
    /// Fetch a file from `offset` on.
    FsDownload { id: u32, path: String, offset: u64 },
    /// Announce a file. The answer says from which offset on its data is wanted.
    FsUploadStart { id: u32, path: String, size: u64 },
    /// Stop a transfer.
    FsCancel { id: u32 },
    /// The controller's clipboard.
    Clipboard { text: String },
    /// Switch the sharing of the clipboard on or off.
    ClipboardSync { enabled: bool },
    /// Darken the managed device's screen, or show it again.
    Blank { enabled: bool },
    /// Lock the managed device's own mouse and keyboard, or free them.
    InputLock { enabled: bool },
}

/// What is done to the system's input queue.
#[derive(Clone, Copy, Debug, PartialEq, Eq, Structural)]
pub enum Injection {
    /// Move the pointer to an absolute place.
    Move { x: i32, y: i32 },
    Button { button: MouseButton, down: bool },
    Wheel { amount: i32 },
    HorizontalWheel { amount: i32 },
    Key { code: u16, up: bool },
}

/// What is injected for an event. A key's code is cut to 16 bits. Requests to the media loop are
/// no input.
pub open spec fn injections(e: InputEvent) -> Seq<Injection> {
    match e {
        InputEvent::MouseMove { x, y } => seq![Injection::Move { x: x as i32, y: y as i32 }],
        InputEvent::MouseButton { button, down } => seq![Injection::Button { button, down }],
        InputEvent::Scroll { dx, dy } => {
            let v = match dy {
                Some(amount) => seq![Injection::Wheel { amount }],
                None => Seq::empty(),
            };
            match dx {
                Some(amount) => v.push(Injection::HorizontalWheel { amount }),
                None => v,
            }
        },
        InputEvent::Key { code, down } => seq![
            Injection::Key { code: (code % 0x1_0000) as u16, up: !down },
        ],
        _ => Seq::empty(),
    }
}

/// What to inject for an event, in order.
pub fn inject(event: &InputEvent) -> (out: Vec<Injection>)
    ensures
        out@ == injections(*event),
{
    let mut out: Vec<Injection> = Vec::new();
    match event {
        InputEvent::MouseMove { x, y } => {
            out.push(Injection::Move { x: *x as i32, y: *y as i32 });
        },
        InputEvent::MouseButton { button, down } => {
            out.push(Injection::Button { button: *button, down: *down });
        },
        InputEvent::Scroll { dx, dy } => {
            if let Some(amount) = dy {
                out.push(Injection::Wheel { amount: *amount });
            }
            if let Some(amount) = dx {
                out.push(Injection::HorizontalWheel { amount: *amount });
            }
        },
        InputEvent::Key { code, down } => {
            out.push(Injection::Key { code: (*code % 0x1_0000) as u16, up: !*down });
        },
        _ => {},
    }
    proof {
        assert(out@ =~= injections(*event));
    }
    out
}

/// The parts into which the system divides a screen for an absolute place.
pub const PARTS: u16 = 65535;

/// A place on a monitor, in parts of it, as one on the desktop that spans all monitors, in parts of
/// that: the pixel under the place, as far as it lies on the desktop. `origin` and `size` are the
/// monitor's along one axis, `all_origin` and `all_size` the desktop's, in pixels.
pub open spec fn part_of_desktop(
    part: u16,
    origin: i32,
    size: u32,
    all_origin: i32,
    all_size: i32,
) -> int {
    let last = if size == 0 { 0 } else { size - 1 };
    let span = if all_size <= 2 { 1 } else { all_size - 1 };
    let pixel = origin + part * last / PARTS as int - all_origin;
    let inside = if pixel < 0 {
        0
    } else if pixel > span {
        span
    } else {
        pixel
    };
    inside * PARTS / span
}

/// Where a place on a monitor lies on the desktop, along one axis.
pub fn on_virtual_desktop(part: u16, origin: i32, size: u32, all_origin: i32, all_size: i32) -> (r:
    i32)
    ensures
        r == part_of_desktop(part, origin, size, all_origin, all_size),
        0 <= r <= PARTS,
{
    let last: u64 = if size == 0 {
        0
    } else {
        (size - 1) as u64
    };
    let span: u64 = if all_size <= 2 {
        1
    } else {
        (all_size - 1) as u64
    };
    assert(part * last <= 65535 * 0xFFFF_FFFF) by (nonlinear_arith)
        requires
            part <= 65535,
            last <= 0xFFFF_FFFF,
    ;
    let within: u64 = part as u64 * last / PARTS as u64;
    let pixel: i64 = origin as i64 + within as i64 - all_origin as i64;
    let inside: u64 = if pixel < 0 {
        0
    } else if pixel as u64 > span {
        span
    } else {
        pixel as u64
    };
    assert(inside * 65535 / span as int <= 65535) by (nonlinear_arith)
        requires
            inside <= span,
            span > 0,
    ;
    (inside * PARTS as u64 / span) as i32
}

/// What is injected for input is the input: a key that goes down is pressed once, one that goes up
/// is released once, and a button likewise; the pointer goes to the place that was sent; the wheel
/// turns by what was sent, each axis that moved once. No request to the media loop injects
/// anything.
pub proof fn law_input_is_injected(e: InputEvent, out: Vec<Injection>)
    requires
        call_ensures(inject, (&e,), out),
    ensures
        e matches InputEvent::Key { code, down } ==> {
            &&& out@.len() == 1
            &&& out@[0] matches Injection::Key { code: c, up }
            &&& up != down
            &&& (code < 0x1_0000 ==> c == code) && (code - c) % 0x1_0000 == 0
        },
        e matches InputEvent::MouseButton { button, down } ==> {
            &&& out@.len() == 1
            &&& out@[0] matches Injection::Button { button: b, down: d }
            &&& b == button && d == down
        },
        e matches InputEvent::MouseMove { x, y } ==> {
            &&& out@.len() == 1
            &&& out@[0] matches Injection::Move { x: px, y: py }
            &&& px == x && py == y
        },
        e matches InputEvent::Scroll { dx, dy } ==> {
            &&& forall|amount: i32| out@.contains(Injection::Wheel { amount }) <==> dy == Some(amount)
            &&& forall|amount: i32|
                out@.contains(Injection::HorizontalWheel { amount }) <==> dx == Some(amount)
            &&& dy is Some ==> out@[0] is Wheel
            &&& out@.len() == (if dx is Some {
                1int
            } else {
                0
            }) + (if dy is Some {
                1int
            } else {
                0
            })
        },
        !(e is Key || e is MouseButton || e is MouseMove || e is Scroll) ==> out@.len() == 0,
{
    if let InputEvent::Scroll { dx, dy } = e {
        if dy is Some {
            assert(out@[0] == Injection::Wheel { amount: dy->0 });
        }
        if dx is Some {
            assert(out@[out@.len() - 1] == Injection::HorizontalWheel { amount: dx->0 });
        }
    }
}

/// Two events inject the same only where they are the same input: a press is never injected as a
/// release, nor one key, button or place as another.
pub proof fn law_injections_tell_input_apart(
    a: InputEvent,
    b: InputEvent,
    out_a: Vec<Injection>,
    out_b: Vec<Injection>,
)
    requires
        call_ensures(inject, (&a,), out_a),
        call_ensures(inject, (&b,), out_b),
        out_a@ == out_b@,
        out_a@.len() > 0,
    ensures
        match (a, b) {
            (
                InputEvent::Key { code: c, down: d },
                InputEvent::Key { code: k, down: e },
            ) => d == e && (c - k) % 0x1_0000 == 0,
            (InputEvent::MouseButton { .. }, InputEvent::MouseButton { .. }) => a == b,
            (InputEvent::MouseMove { .. }, InputEvent::MouseMove { .. }) => a == b,
            (InputEvent::Scroll { .. }, InputEvent::Scroll { .. }) => a == b,
            _ => false,
        },
{
    law_input_is_injected(a, out_a);
    law_input_is_injected(b, out_b);
    if let (InputEvent::Scroll { dx, dy }, InputEvent::Scroll { dx: ex, dy: ey }) = (a, b) {
        if dy is Some {
            assert(out_a@.contains(Injection::Wheel { amount: dy->0 }));
        }
        if ey is Some {
            assert(out_b@.contains(Injection::Wheel { amount: ey->0 }));
        }
        if dx is Some {
            assert(out_a@.contains(Injection::HorizontalWheel { amount: dx->0 }));
        }
        if ex is Some {
            assert(out_b@.contains(Injection::HorizontalWheel { amount: ex->0 }));
        }
    }
    assert(out_a@[0] == out_b@[0]);
}

/// The ends of a monitor that is the whole desktop are the ends of the desktop, a place further
/// along a monitor is no nearer to the desktop's start, and no place leaves the desktop.
pub proof fn law_places_keep_order(
    a: u16,
    b: u16,
    origin: i32,
    size: u32,
    all_origin: i32,
    all_size: i32,
    at_a: i32,
    at_b: i32,
)
    requires
        call_ensures(on_virtual_desktop, (a, origin, size, all_origin, all_size), at_a),
        call_ensures(on_virtual_desktop, (b, origin, size, all_origin, all_size), at_b),
        a <= b,
    ensures
        0 <= at_a <= at_b <= PARTS,
        origin == all_origin && size == all_size && size >= 2 ==> (a == 0 ==> at_a == 0) && (b == PARTS
            ==> at_b == PARTS),
        origin == all_origin && a == 0 ==> at_a == 0,
{
    let last = if size == 0 { 0 } else { size - 1 };
    let span = if all_size <= 2 { 1 } else { all_size - 1 };
    assert(0 <= a * last <= b * last) by (nonlinear_arith)
        requires
            0 <= a <= b,
            0 <= last,
    ;
    vstd::arithmetic::div_mod::lemma_div_is_ordered(a * last, b * last, PARTS as int);
    assert forall|x: int, y: int| x <= y implies #[trigger] (x * PARTS / span) <= #[trigger] (y
        * PARTS / span) by {
        vstd::arithmetic::div_mod::lemma_div_is_ordered(x * PARTS, y * PARTS, span);
    }
    assert(span * PARTS / span == PARTS) by (nonlinear_arith)
        requires
            span > 0,
    ;
    assert(0 * PARTS / span == 0) by (nonlinear_arith)
        requires
            span > 0,
    ;
    if a == 0 {
        assert(a * last == 0) by (nonlinear_arith)
            requires
                a == 0,
        ;
    }
    if b == PARTS {
        assert(b * last / PARTS as int == last) by (nonlinear_arith)
            requires
                b == PARTS,
                PARTS == 65535,
                0 <= last,
        ;
    }
}

/// A place on a monitor that lies on the desktop is the place of the pixel under it: `pixel` is the
/// monitor's pixel at that part of it, and the result is the part of the desktop at which that
/// pixel lies.
pub proof fn law_place_is_its_pixel(
    part: u16,
    origin: i32,
    size: u32,
    all_origin: i32,
    all_size: i32,
    at: i32,
    pixel: int,
)
    requires
        call_ensures(on_virtual_desktop, (part, origin, size, all_origin, all_size), at),
        size >= 1,
        all_size >= 2,
        all_origin <= origin,
        origin + size <= all_origin + all_size,
        pixel * 65535 <= part * (size - 1) < (pixel + 1) * 65535,
    ensures
        at * (all_size - 1) <= (origin - all_origin + pixel) * 65535 < (at + 1) * (all_size - 1),
{
    let (last, span) = (size - 1, all_size - 1);
    let n = part * last;
    assert(n / 65535 == pixel) by {
        vstd::arithmetic::div_mod::lemma_fundamental_div_mod_converse(
            n,
            65535,
            pixel,
            n - pixel * 65535,
        );
    }
    assert(0 <= n <= 65535 * last) by (nonlinear_arith)
        requires
            n == part * last,
            0 <= part <= 65535,
            0 <= last,
    ;
    assert(0 <= pixel <= last);
    let m = (origin - all_origin + pixel) * 65535;
    assert(part_of_desktop(part, origin, size, all_origin, all_size) == m / span);
    vstd::arithmetic::div_mod::lemma_fundamental_div_mod(m, span);
    assert(span * (m / span) == (m / span) * span) by (nonlinear_arith);
    assert((m / span + 1) * span == (m / span) * span + span) by (nonlinear_arith);
}

} // verus!
