use wl_gammarelay::color::Color;
use wl_gammarelay::dbus_server::{DbusServer, Node};
use wl_gammarelay::state::{WaylandEvent, WaylandState};

#[test]
fn only_the_primary_owner_of_the_name_serves() {
    assert!(DbusServer::new(1).is_some());
    assert!(DbusServer::new(0).is_none());
    assert!(DbusServer::new(2).is_none());
    assert!(DbusServer::new(3).is_none());
    assert!(DbusServer::new(4).is_none());
}

#[test]
fn a_new_server_has_the_root_and_the_container() {
    let server = DbusServer::new(1).unwrap();
    assert_eq!(server.node("/"), Some(Node::Root));
    assert_eq!(server.node("/outputs"), Some(Node::Outputs));
    assert_eq!(server.node("/outputs/"), None);
    assert_eq!(server.node("/outputs/a"), None);
    assert_eq!(server.node(""), None);
    assert_eq!(server.node("/other"), None);
}

#[test]
fn add_output_puts_the_display_under_its_sanitized_name() {
    let mut server = DbusServer::new(1).unwrap();
    server.add_output(7, "HDMI-A-1");
    assert_eq!(server.node("/outputs/HDMI_A_1"), Some(Node::Output(7)));
    assert_eq!(server.node("/outputs/HDMI-A-1"), None);
    server.add_output(8, "eDP-1");
    assert_eq!(server.node("/outputs/eDP_1"), Some(Node::Output(8)));
    assert_eq!(server.node("/outputs/HDMI_A_1"), Some(Node::Output(7)));
}

#[test]
fn an_object_gives_way_to_a_new_one_at_its_path() {
    let mut server = DbusServer::new(1).unwrap();
    server.add_output(7, "DP-1");
    server.add_output(9, "DP_1");
    assert_eq!(server.node("/outputs/DP_1"), Some(Node::Output(9)));
    server.remove_output("DP-1");
    assert_eq!(server.node("/outputs/DP_1"), None);
}

#[test]
fn remove_output_takes_the_object_away() {
    let mut server = DbusServer::new(1).unwrap();
    server.add_output(1, "a");
    server.add_output(2, "b");
    server.add_output(3, "c");
    server.remove_output("a");
    assert_eq!(server.node("/outputs/a"), None);
    assert_eq!(server.node("/outputs/b"), Some(Node::Output(2)));
    assert_eq!(server.node("/outputs/c"), Some(Node::Output(3)));
    server.remove_output("missing");
    server.remove_output("c");
    assert_eq!(server.node("/outputs/b"), Some(Node::Output(2)));
    assert_eq!(server.node("/outputs/c"), None);
    assert_eq!(server.node("/"), Some(Node::Root));
}

#[test]
fn the_tree_follows_the_displays_once_the_events_are_drained() {
    let mut server = DbusServer::new(1).unwrap();
    let mut state = WaylandState::new();
    state.global(1, 11, 21, Color::default());
    state.global(2, 12, 22, Color::default());
    state.output_name(11, "HDMI-A-1".to_string());
    state.output_name(12, "eDP-1".to_string());
    state.global_remove(1);
    while let Some(event) = state.next_event() {
        server.apply(&event);
    }
    assert_eq!(server.node("/outputs/HDMI_A_1"), None);
    assert_eq!(server.node("/outputs/eDP_1"), Some(Node::Output(2)));
    server.apply(&WaylandEvent::RemoveOutput { name: "eDP-1".to_string() });
    assert_eq!(server.node("/outputs/eDP_1"), None);
}
