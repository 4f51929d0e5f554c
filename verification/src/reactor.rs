//! What the daemon decides around its sockets: whether it is the one
//! instance, what a start of the program leads to, and which of its three
//! sources it serves after a wait.

use crate::state::{any_changed, WaylandState};
use vstd::prelude::*;

verus! {

/// The reply to a request for a name on the bus that says: the name is now
/// yours, and no one else had it.
pub const REQUEST_NAME_REPLY_PRIMARY_OWNER: u32 = 1;

/// What the program was started for.
#[derive(Debug)]
pub enum Command {
    /// Run the daemon.
    Run,
    /// Print a line, made from `format`, whenever the values change.
    Watch { format: String },
}

/// What a start of the program leads to.
#[derive(Debug)]
pub enum Startup {
    /// This is the one instance: it serves the bus and the compositor, and
    /// prints lines from `watch` if it was started to watch.
    Serve { watch: Option<String> },
    /// Another instance runs and nothing is to be watched: say so and leave
    /// with success.
    AlreadyRunning,
    /// Another instance runs: follow it and print lines from `format`.
    Follow { format: String },
}

/// A [`Startup`] as contracts see it.
pub enum StartupView {
    Serve { watch: Option<Seq<char>> },
    AlreadyRunning,
    Follow { format: Seq<char> },
}

impl View for Startup {
    type V = StartupView;

    open spec fn view(&self) -> StartupView {
        match *self {
            Startup::Serve { watch } => StartupView::Serve {
                watch: match watch {
                    Some(format) => Some(format@),
                    None => None,
                },
            },
            Startup::AlreadyRunning => StartupView::AlreadyRunning,
            Startup::Follow { format } => StartupView::Follow { format: format@ },
        }
    }
}

/// Which of the three sources are served after a wait.
#[derive(Clone, Copy, Debug, PartialEq, Eq, Structural)]
pub struct Tick {
    /// Calls that came in on the bus are answered.
    pub bus: bool,
    /// Events of the compositor are read, and ramps are published for the
    /// displays whose colour waits.
    pub compositor: bool,
    /// Signals that came in for the watcher are read.
    pub watcher: bool,
}

/// Whether the reply to the request for the well-known name makes this
/// process the one instance.
pub open spec fn spec_owns_name(reply: u32) -> bool {
    reply == REQUEST_NAME_REPLY_PRIMARY_OWNER
}

/// What a start leads to, given whether this process got the name.
pub open spec fn spec_startup(owns_name: bool, command: Command) -> StartupView {
    match (owns_name, command) {
        (true, Command::Run) => StartupView::Serve { watch: None },
        (true, Command::Watch { format }) => StartupView::Serve { watch: Some(format@) },
        (false, Command::Run) => StartupView::AlreadyRunning,
        (false, Command::Watch { format }) => StartupView::Follow { format: format@ },
    }
}

/// What is served after a wait that ended with these events on the three
/// sockets: the bus and the watcher when their socket has events, the
/// compositor when its socket has events or the colour of a display waits to
/// be published.
pub open spec fn spec_tick(
    bus_events: i16,
    compositor_events: i16,
    watcher_events: i16,
    color_changed: bool,
) -> Tick {
    Tick {
        bus: bus_events != 0,
        compositor: compositor_events != 0 || color_changed,
        watcher: watcher_events != 0,
    }
}

/// How long a wait for the sockets may last, in milliseconds: no time at all
/// while the colour of a display waits to be published, and without end
/// (`-1`) otherwise.
pub open spec fn spec_wait_timeout(color_changed: bool) -> int {
    if color_changed {
        0
    } else {
        -1
    }
}

#[verifier::when_used_as_spec(spec_owns_name)]
pub fn owns_name(reply: u32) -> (r: bool)
    ensures
        r == spec_owns_name(reply),
{
    reply == REQUEST_NAME_REPLY_PRIMARY_OWNER
}

/// Decides what a start of the program leads to. A second daemon never
/// serves: it leaves with success, or follows the first if it was started to
/// watch.
pub fn startup(owns_name: bool, command: Command) -> (r: Startup)
    ensures
        r@ == spec_startup(owns_name, command),
{
    match command {
        Command::Run => if owns_name {
            Startup::Serve { watch: None }
        } else {
            Startup::AlreadyRunning
        },
        Command::Watch { format } => if owns_name {
            Startup::Serve { watch: Some(format) }
        } else {
            Startup::Follow { format }
        },
    }
}

/// The number of sockets to wait for: the bus and the compositor, and the
/// watcher's if lines are printed.
pub fn sockets(watching: bool) -> (r: usize)
    ensures
        r == if watching { 3usize } else { 2usize },
{
    if watching {
        3
    } else {
        2
    }
}

/// How long the next wait for the sockets may last.
pub fn wait_timeout(state: &WaylandState) -> (r: i32)
    ensures
        r == spec_wait_timeout(any_changed(state.displays())),
{
    if state.color_changed() {
        0
    } else {
        -1
    }
}

/// Decides what is served after a wait.
pub fn tick(state: &WaylandState, bus_events: i16, compositor_events: i16, watcher_events: i16) -> (r:
    Tick)
    ensures
        r == spec_tick(
            bus_events,
            compositor_events,
            watcher_events,
            any_changed(state.displays()),
        ),
{
    Tick {
        bus: bus_events != 0,
        compositor: compositor_events != 0 || state.color_changed(),
        watcher: watcher_events != 0,
    }
}

} // verus!
