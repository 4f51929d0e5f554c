use wl_gammarelay::color::Color;
use wl_gammarelay::reactor::{
    owns_name, sockets, startup, tick, wait_timeout, Command, Startup, Tick,
    REQUEST_NAME_REPLY_PRIMARY_OWNER,
};
use wl_gammarelay::state::WaylandState;

#[test]
fn the_name_is_owned_only_as_primary_owner() {
    assert_eq!(REQUEST_NAME_REPLY_PRIMARY_OWNER, 1);
    assert!(owns_name(1));
    assert!(!owns_name(0));
    assert!(!owns_name(2));
    assert!(!owns_name(3));
    assert!(!owns_name(4));
    assert!(!owns_name(u32::MAX));
}

#[test]
fn a_second_run_does_not_serve() {
    assert!(matches!(startup(owns_name(3), Command::Run), Startup::AlreadyRunning));
    assert!(matches!(startup(false, Command::Run), Startup::AlreadyRunning));
}

#[test]
fn the_first_instance_serves() {
    assert!(matches!(startup(true, Command::Run), Startup::Serve { watch: None }));
    match startup(true, Command::Watch { format: "{t}".to_string() }) {
        Startup::Serve { watch } => assert_eq!(watch, Some("{t}".to_string())),
        other => panic!("unexpected {other:?}"),
    }
}

#[test]
fn a_watcher_follows_the_instance_that_runs() {
    match startup(false, Command::Watch { format: "{b}".to_string() }) {
        Startup::Follow { format } => assert_eq!(format, "{b}"),
        other => panic!("unexpected {other:?}"),
    }
}

#[test]
fn two_sockets_or_three() {
    assert_eq!(sockets(false), 2);
    assert_eq!(sockets(true), 3);
}

#[test]
fn a_tick_serves_what_has_events() {
    let state = WaylandState::new();
    assert_eq!(tick(&state, 0, 0, 0), Tick { bus: false, compositor: false, watcher: false });
    assert_eq!(tick(&state, 1, 0, 0), Tick { bus: true, compositor: false, watcher: false });
    assert_eq!(tick(&state, 0, 1, 0), Tick { bus: false, compositor: true, watcher: false });
    assert_eq!(tick(&state, 0, 0, 1), Tick { bus: false, compositor: false, watcher: true });
    assert_eq!(tick(&state, 16, -1, 8), Tick { bus: true, compositor: true, watcher: true });
}

#[test]
fn a_waiting_colour_wakes_the_compositor_side() {
    let mut state = WaylandState::new();
    assert_eq!(wait_timeout(&state), -1);
    state.global(1, 11, 21, Color::default());
    assert_eq!(tick(&state, 0, 0, 0), Tick { bus: false, compositor: true, watcher: false });
    assert_eq!(wait_timeout(&state), 0);
    state.gamma_size(21, 256);
    state.set_displayed(1);
    assert_eq!(tick(&state, 0, 0, 0), Tick { bus: false, compositor: false, watcher: false });
    assert_eq!(wait_timeout(&state), -1);
}

#[test]
fn the_reply_of_a_primary_owner_is_the_one_the_bus_library_knows() {
    assert_eq!(
        REQUEST_NAME_REPLY_PRIMARY_OWNER,
        rustbus::standard_messages::DBUS_REQUEST_NAME_REPLY_PRIMARY_OWNER
    );
    assert!(!owns_name(rustbus::standard_messages::DBUS_REQUEST_NAME_REPLY_IN_QUEUE));
    assert!(!owns_name(rustbus::standard_messages::DBUS_REQUEST_NAME_REPLY_EXISTS));
    assert!(!owns_name(rustbus::standard_messages::DBUS_REQUEST_NAME_REPLY_ALREADY_OWNER));
}
