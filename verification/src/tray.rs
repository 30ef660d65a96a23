//! What the tray decides by itself: where its window goes, how often it tries
//! the daemon's pipe, and whether it has to start the daemon.

use crate::ipc::PIPE_NAME;
use crate::text::{decimal, decimal_of, join2, join3};
use vstd::prelude::*;

verus! {

// ---- Window -------------------------------------------------------------

/// A monitor: where its top left corner is, and its size, in pixels.
#[derive(Debug, Clone, Copy, PartialEq, Eq, Structural)]
pub struct Monitor {
    pub x: i32,
    pub y: i32,
    pub width: u32,
    pub height: u32,
}

/// Whether a number is an `i32`.
pub open spec fn is_i32(n: int) -> bool {
    i32::MIN <= n <= i32::MAX
}

impl Monitor {
    /// The column right of the monitor.
    pub open spec fn right(&self) -> int {
        self.x + (self.width as i32)
    }

    /// The row below the monitor.
    pub open spec fn bottom(&self) -> int {
        self.y + (self.height as i32)
    }

    /// Whether a point is on the monitor.
    pub open spec fn covers(&self, x: int, y: int) -> bool {
        self.x <= x < self.right() && self.y <= y < self.bottom()
    }

    /// The corner opposite to the first has coordinates.
    pub open spec fn is_bounded(&self) -> bool {
        is_i32(self.right()) && is_i32(self.bottom())
    }

    /// The edges that a point has to be held against have coordinates: the right
    /// one where the point is not left of the monitor, the lower one where it is
    /// also not above it.
    pub open spec fn is_comparable(&self, x: int, y: int) -> bool {
        &&& self.x <= x ==> is_i32(self.right())
        &&& self.x <= x < self.right() && self.y <= y ==> is_i32(self.bottom())
    }

    /// Whether the edges that a point has to be held against have coordinates.
    pub fn comparable(&self, x: i32, y: i32) -> (r: bool)
        ensures
            r == self.is_comparable(x as int, y as int),
            r <==> {
                let right = self.x + (self.width as i32);
                let bottom = self.y + (self.height as i32);
                &&& x >= self.x ==> i32::MIN <= right <= i32::MAX
                &&& self.x <= x < right && y >= self.y ==> i32::MIN <= bottom <= i32::MAX
            },
    {
        if x < self.x {
            return true;
        }
        match self.x.checked_add(self.width as i32) {
            Some(right) => x >= right || y < self.y || self.y.checked_add(
                self.height as i32,
            ).is_some(),
            None => false,
        }
    }

    /// Whether a point is on the monitor.
    pub fn contains(&self, x: i32, y: i32) -> (r: bool)
        requires
            self.is_comparable(x as int, y as int),
        ensures
            r == self.covers(x as int, y as int),
            r <==> self.x <= x < self.x + (self.width as i32) && self.y <= y < self.y + (
            self.height as i32),
    {
        x >= self.x && x < self.x + self.width as i32 && y >= self.y && y < self.y
            + self.height as i32
    }
}

/// Whether no monitor before place `i` covers a point.
pub open spec fn uncovered_before(monitors: Seq<Monitor>, i: int, x: int, y: int) -> bool {
    forall|k: int| 0 <= k < i ==> !(#[trigger] monitors[k]).covers(x, y)
}

/// Whether the monitor of a click can be found: each monitor up to the first that
/// covers it can be held against it.
pub open spec fn is_pickable(monitors: Seq<Monitor>, x: int, y: int) -> bool {
    forall|i: int|
        0 <= i < monitors.len() && uncovered_before(monitors, i, x, y) ==> (
        #[trigger] monitors[i]).is_comparable(x, y)
}

/// Whether the monitor of a click can be found.
pub fn pickable(monitors: &Vec<Monitor>, x: i32, y: i32) -> (r: bool)
    ensures
        r == is_pickable(monitors@, x as int, y as int),
{
    let mut i: usize = 0;
    while i < monitors.len()
        invariant
            i <= monitors@.len(),
            uncovered_before(monitors@, i as int, x as int, y as int),
            forall|k: int|
                0 <= k < i ==> (#[trigger] monitors@[k]).is_comparable(x as int, y as int),
        decreases monitors@.len() - i,
    {
        if !monitors[i].comparable(x, y) {
            assert(!monitors@[i as int].is_comparable(x as int, y as int));
            return false;
        }
        if monitors[i].contains(x, y) {
            assert forall|k: int|
                0 <= k < monitors@.len() && uncovered_before(
                    monitors@,
                    k,
                    x as int,
                    y as int,
                ) implies (#[trigger] monitors@[k]).is_comparable(x as int, y as int) by {
                if k > i {
                    assert(monitors@[i as int].covers(x as int, y as int));
                }
            }
            return true;
        }
        i += 1;
    }
    true
}

/// The monitor that a click is on, or the first one where it is on none.
pub fn pick_monitor(monitors: &Vec<Monitor>, x: i32, y: i32) -> (r: Option<Monitor>)
    requires
        is_pickable(monitors@, x as int, y as int),
    ensures
        match r {
            Some(m) => {
                ||| exists|i: int|
                    0 <= i < monitors@.len() && #[trigger] monitors@[i] == m && m.covers(
                        x as int,
                        y as int,
                    ) && uncovered_before(monitors@, i, x as int, y as int)
                ||| monitors@.len() > 0 && m == monitors@[0] && uncovered_before(
                    monitors@,
                    monitors@.len() as int,
                    x as int,
                    y as int,
                )
            },
            None => monitors@.len() == 0,
        },
        r is None <==> monitors@.len() == 0,
{
    let mut i: usize = 0;
    while i < monitors.len()
        invariant
            i <= monitors@.len(),
            is_pickable(monitors@, x as int, y as int),
            uncovered_before(monitors@, i as int, x as int, y as int),
        decreases monitors@.len() - i,
    {
        assert(monitors@[i as int].is_comparable(x as int, y as int));
        if monitors[i].contains(x, y) {
            return Some(monitors[i]);
        }
        i += 1;
    }
    if monitors.len() > 0 {
        Some(monitors[0])
    } else {
        None
    }
}

/// Half of a number, rounded towards zero.
pub open spec fn half(n: int) -> int {
    if n >= 0 {
        n / 2
    } else {
        -((-n) / 2)
    }
}

/// The room beside the window, on the left, before the margin is taken off.
pub open spec fn free_width(monitor: Monitor, width: u32) -> int {
    monitor.right() - (width as i32)
}

/// The room above and below the window.
pub open spec fn free_height(monitor: Monitor, height: u32) -> int {
    (monitor.height as i32) - (height as i32)
}

/// Whether a window of the given size and margin has a place on a monitor.
pub open spec fn has_place(monitor: Monitor, width: u32, height: u32, margin: i32) -> bool {
    &&& is_i32(monitor.right())
    &&& is_i32(free_width(monitor, width))
    &&& is_i32(free_width(monitor, width) - margin)
    &&& is_i32(free_height(monitor, height))
    &&& is_i32(monitor.y + half(free_height(monitor, height)))
}

/// Whether a window of the given size and margin has a place on a monitor.
pub fn fits(monitor: Monitor, width: u32, height: u32, margin: i32) -> (r: bool)
    ensures
        r == has_place(monitor, width, height, margin),
        r <==> {
            let right = monitor.x + (monitor.width as i32);
            let left = right - (width as i32);
            let free = (monitor.height as i32) - (height as i32);
            &&& i32::MIN <= right <= i32::MAX
            &&& i32::MIN <= left <= i32::MAX
            &&& i32::MIN <= left - margin <= i32::MAX
            &&& i32::MIN <= free <= i32::MAX
            &&& free >= 0 ==> i32::MIN <= monitor.y + free / 2 <= i32::MAX
            &&& free < 0 ==> i32::MIN <= monitor.y - (-free) / 2 <= i32::MAX
        },
{
    let right: i32 = match monitor.x.checked_add(monitor.width as i32) {
        Some(n) => n,
        None => {
            return false;
        },
    };
    let left: i32 = match right.checked_sub(width as i32) {
        Some(n) => n,
        None => {
            return false;
        },
    };
    if left.checked_sub(margin).is_none() {
        return false;
    }
    match (monitor.height as i32).checked_sub(height as i32) {
        Some(free) => monitor.y.checked_add(free / 2).is_some(),
        None => false,
    }
}

/// Where the window's top left corner goes on a monitor: at the right edge but
/// for a margin, and halfway down.
pub fn popover_position(monitor: Monitor, width: u32, height: u32, margin: i32) -> (r: (i32, i32))
    requires
        has_place(monitor, width, height, margin),
    ensures
        r.0 == free_width(monitor, width) - margin,
        r.1 == monitor.y + half(free_height(monitor, height)),
        r.0 + (width as i32) + margin == monitor.x + (monitor.width as i32),
        ({
            let free = (monitor.height as i32) - (height as i32);
            &&& free >= 0 ==> r.1 == monitor.y + free / 2
            &&& free < 0 ==> r.1 == monitor.y - (-free) / 2
        }),
{
    let x: i32 = monitor.x + monitor.width as i32 - width as i32 - margin;
    let y: i32 = monitor.y + ((monitor.height as i32 - height as i32) / 2);
    (x, y)
}

// ---- Pipe ---------------------------------------------------------------

/// How often the tray tries to open the pipe.
pub const PIPE_ATTEMPTS: u32 = 10;

/// How many milliseconds pass after each failed try.
pub const PIPE_RETRY_MILLIS: u64 = 150;

/// The message when the pipe could not be opened at all.
pub const CONNECT_FAILED: &'static str = "Failed to connect to csid daemon";

/// What the failure of try `attempt`, counted from zero, is reported as.
pub open spec fn attempt_text(attempt: nat, reason: Seq<char>) -> Seq<char> {
    "open "@ + PIPE_NAME@ + " attempt "@ + decimal_of(attempt) + ": "@ + reason
}

/// The opening of the pipe, under way.
#[derive(Debug)]
pub struct PipeOpening {
    /// Which try comes next, from zero.
    pub attempt: u32,
}

impl PipeOpening {
    /// There are tries left.
    pub open spec fn wf(&self) -> bool {
        self.attempt < PIPE_ATTEMPTS
    }

    /// Before the first try.
    pub fn begin() -> (r: Self)
        ensures
            r.wf(),
            r.attempt == 0,
    {
        PipeOpening { attempt: 0 }
    }

    /// Goes on after a failed try and a pause: with the next one, or with the
    /// message of the last.
    pub fn failed(self, reason: &str) -> (r: Result<PipeOpening, String>)
        requires
            self.wf(),
        ensures
            match r {
                Ok(next) => next.wf() && next.attempt == self.attempt + 1,
                Err(message) => {
                    &&& self.attempt + 1 == PIPE_ATTEMPTS
                    &&& message@ == attempt_text(self.attempt as nat, reason@)
                    &&& message@ == "open "@ + "\\\\.\\pipe\\csi"@ + " attempt "@ + decimal_of(
                        self.attempt as nat,
                    ) + ": "@ + reason@
                },
            },
    {
        if self.attempt + 1 < PIPE_ATTEMPTS {
            return Ok(PipeOpening { attempt: self.attempt + 1 });
        }
        let place = join3("open ", PIPE_NAME, " attempt ");
        Err(join3(&join2(&place, &decimal(self.attempt as u64)), ": ", reason))
    }
}

/// How often the tray looks for the daemon when it starts.
pub const STARTUP_ATTEMPTS: u32 = 20;

/// How many milliseconds pass before each look.
pub const STARTUP_PAUSE_MILLIS: u64 = 500;

/// What to do after the daemon was looked for.
#[derive(Debug, Clone, Copy, PartialEq, Eq, Structural)]
pub enum StartupStep {
    /// It answered.
    Connected,
    /// Look again, as this attempt.
    Again(u32),
    /// It did not answer in time.
    GaveUp,
}

/// What to do after attempt `attempt`, counted from one, to look for the daemon.
pub fn startup_step(attempt: u32, answered: bool) -> (r: StartupStep)
    ensures
        r == (if answered {
            StartupStep::Connected
        } else if attempt < STARTUP_ATTEMPTS {
            StartupStep::Again((attempt + 1) as u32)
        } else {
            StartupStep::GaveUp
        }),
{
    if answered {
        StartupStep::Connected
    } else if attempt < STARTUP_ATTEMPTS {
        StartupStep::Again(attempt + 1)
    } else {
        StartupStep::GaveUp
    }
}

// ---- Daemon -------------------------------------------------------------

/// The daemon's program, beside the tray's.
pub const DAEMON_PROGRAM: &'static str = "csid.exe";

/// The flag that keeps a new program from opening a console window.
pub const CREATE_NO_WINDOW: u32 = 0x0800_0000;

/// What to do about the daemon when the tray starts.
#[derive(Debug)]
pub enum Launch {
    /// Nothing: it runs.
    Running,
    /// Nothing: the tray does not know where its own program is, for this
    /// reason.
    Lost(String),
    /// Nothing: the tray's program has no directory.
    NoDirectory,
    /// Nothing: the daemon's program is not there.
    Missing,
    /// Start the daemon's program.
    Spawn,
}

/// What to do about the daemon: it is started where its pipe is not there and
/// its program stands beside the tray's. `own_program` says whether the tray
/// knows its own program, and whether that is in a directory.
pub fn ensure_daemon_running(
    pipe_exists: bool,
    own_program: Result<bool, String>,
    daemon_exists: bool,
) -> (r: Launch)
    ensures
        r == (if pipe_exists {
            Launch::Running
        } else {
            match own_program {
                Err(e) => Launch::Lost(e),
                Ok(in_directory) => if !in_directory {
                    Launch::NoDirectory
                } else if !daemon_exists {
                    Launch::Missing
                } else {
                    Launch::Spawn
                },
            }
        }),
{
    if pipe_exists {
        return Launch::Running;
    }
    match own_program {
        Err(e) => Launch::Lost(e),
        Ok(in_directory) => {
            if !in_directory {
                Launch::NoDirectory
            } else if !daemon_exists {
                Launch::Missing
            } else {
                Launch::Spawn
            }
        },
    }
}

// ---- Laws ---------------------------------------------------------------

/// A point is on a monitor exactly when it is neither left of it, right of it,
/// above it nor below it; and a place in a list of monitors is uncovered so far
/// exactly when the point is on none of those before it.
pub proof fn monitor_covers_its_rectangle(
    monitors: Seq<Monitor>,
    n: int,
    monitor: Monitor,
    x: int,
    y: int,
)
    ensures
        monitor.covers(x, y) <==> monitor.x <= x && x < monitor.x + (monitor.width as i32)
            && monitor.y <= y && y < monitor.y + (monitor.height as i32),
        uncovered_before(monitors, n, x, y) <==> forall|k: int|
            0 <= k < n ==> !(monitors[k].x <= x && x < monitors[k].x + (monitors[k].width as i32)
                && monitors[k].y <= y && y < monitors[k].y + ((
            #[trigger] monitors[k]).height as i32)),
{
}

/// A click whose monitors all have edges can be placed.
pub proof fn bounded_monitors_can_be_picked(monitors: Seq<Monitor>, x: int, y: int)
    requires
        forall|i: int|
            0 <= i < monitors.len() ==> {
                &&& i32::MIN <= (#[trigger] monitors[i]).x + (monitors[i].width as i32) <= i32::MAX
                &&& i32::MIN <= monitors[i].y + (monitors[i].height as i32) <= i32::MAX
            },
    ensures
        is_pickable(monitors, x, y),
{
}

/// The pipe is tried ten times, the daemon looked for twenty times, half a second
/// apart: ten seconds.
pub proof fn tries_have_their_numbers()
    ensures
        PIPE_ATTEMPTS == 10,
        PIPE_RETRY_MILLIS == 150,
        STARTUP_ATTEMPTS * STARTUP_PAUSE_MILLIS == 10_000,
        STARTUP_ATTEMPTS == 20,
        DAEMON_PROGRAM@ == "csid.exe"@,
        CREATE_NO_WINDOW == 0x0800_0000,
{
}

/// A window that is no larger than the monitor, with a margin that fits beside
/// it, is placed on the monitor as a whole, with the same room above and below
/// it but for a pixel.
pub proof fn window_stays_on_its_monitor(
    monitor: Monitor,
    width: u32,
    height: u32,
    margin: i32,
)
    requires
        monitor.is_bounded(),
        monitor.width <= i32::MAX,
        monitor.height <= i32::MAX,
        0 <= margin,
        width + margin <= monitor.width,
        height <= monitor.height,
    ensures
        has_place(monitor, width, height, margin),
        ({
            let x = free_width(monitor, width) - margin;
            let y = monitor.y + half(free_height(monitor, height));
            let below = monitor.bottom() - (y + height);
            &&& monitor.x <= x
            &&& x + width + margin == monitor.right()
            &&& monitor.y <= y
            &&& y + height <= monitor.bottom()
            &&& 0 <= below - (y - monitor.y) <= 1
        }),
{
}

} // verus!
