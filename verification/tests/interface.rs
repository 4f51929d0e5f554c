use wl_gammarelay::binary64::Binary64;
use wl_gammarelay::color::Color;
use wl_gammarelay::interface::{
    bus_name, get_output, get_root, interface_name, method, properties_interface, set_output,
    set_root, toggle_inverted_root, update_output, validate, BusError, Method,
};
use wl_gammarelay::property::{Change, Property, Value};
use wl_gammarelay::signal::{member, signals, Signal, Snapshot};
use wl_gammarelay::state::{Naming, WaylandState};

fn b(x: f64) -> Binary64 {
    Binary64::from_bits(x.to_bits())
}

fn f(x: Binary64) -> f64 {
    f64::from_bits(x.to_bits())
}

fn means(state: &WaylandState) -> (Binary64, Binary64) {
    let n = state.outputs().len() as f64;
    let brightness: f64 = state.outputs().iter().map(|o| f(o.color().brightness)).sum();
    let gamma: f64 = state.outputs().iter().map(|o| f(o.color().gamma)).sum();
    (b(brightness / n), b(gamma / n))
}

fn snapshot(state: &WaylandState) -> Snapshot {
    let (brightness, gamma) = means(state);
    Snapshot::take(state, brightness, gamma)
}

fn changes(
    state: &WaylandState,
    before: &Snapshot,
    at_root: bool,
    property: Property,
) -> Vec<(String, Value)> {
    let (brightness, gamma) = means(state);
    signals(state, before, at_root, property, brightness, gamma)
        .into_iter()
        .map(|Signal { path, value }| (path, value))
        .collect()
}

fn read_root(state: &WaylandState, property: Property) -> Value {
    let (brightness, gamma) = means(state);
    get_root(state, property, brightness, gamma)
}

fn displays(names: &[&str]) -> WaylandState {
    let mut state = WaylandState::new();
    for (i, name) in names.iter().enumerate() {
        let i = i as u32 + 1;
        assert!(state.global(i, 10 + i, 20 + i, Color::default()));
        assert_eq!(state.output_name(10 + i, name.to_string()), Naming::Named);
    }
    state
}

fn at(path: &str, value: Value) -> (String, Value) {
    (path.to_string(), value)
}

#[test]
fn temperature_clamp_via_update() {
    let mut state = displays(&["a"]);
    assert_eq!(get_output(&state, 1, Property::Temperature), Ok(Value::Temperature(6500)));
    let before = snapshot(&state);
    assert_eq!(update_output(&mut state, 1, Change::ShiftTemperature(-10000)), Ok(()));
    assert_eq!(get_output(&state, 1, Property::Temperature), Ok(Value::Temperature(1000)));
    assert_eq!(read_root(&state, Property::Temperature), Value::Temperature(1000));
    assert_eq!(
        changes(&state, &before, false, Property::Temperature),
        vec![at("/outputs/a", Value::Temperature(1000)), at("/", Value::Temperature(1000))]
    );
}

#[test]
fn aggregate_mean_of_two_displays() {
    let mut state = displays(&["a", "b"]);
    let before = snapshot(&state);
    assert_eq!(set_output(&mut state, 1, Value::Temperature(4000)), Ok(()));
    assert_eq!(
        changes(&state, &before, false, Property::Temperature),
        vec![at("/outputs/a", Value::Temperature(4000)), at("/", Value::Temperature(5250))]
    );
    let before = snapshot(&state);
    assert_eq!(set_output(&mut state, 2, Value::Temperature(6000)), Ok(()));
    assert_eq!(read_root(&state, Property::Temperature), Value::Temperature(5000));
    assert_eq!(
        changes(&state, &before, false, Property::Temperature),
        vec![at("/outputs/b", Value::Temperature(6000)), at("/", Value::Temperature(5000))]
    );
}

#[test]
fn root_broadcast() {
    let mut state = displays(&["a", "b"]);
    assert_eq!(set_root(&mut state, Value::Temperature(4000)), Ok(()));
    let before = snapshot(&state);
    assert_eq!(set_root(&mut state, Value::Temperature(6000)), Ok(()));
    assert_eq!(get_output(&state, 1, Property::Temperature), Ok(Value::Temperature(6000)));
    assert_eq!(get_output(&state, 2, Property::Temperature), Ok(Value::Temperature(6000)));
    assert_eq!(
        changes(&state, &before, true, Property::Temperature),
        vec![
            at("/", Value::Temperature(6000)),
            at("/outputs/a", Value::Temperature(6000)),
            at("/outputs/b", Value::Temperature(6000)),
        ]
    );
}

#[test]
fn invalid_write() {
    let mut state = displays(&["a", "b"]);
    set_output(&mut state, 1, Value::Brightness(b(0.5))).unwrap();
    let before = snapshot(&state);
    let refused = set_root(&mut state, Value::Brightness(b(2.0)));
    assert_eq!(refused, Err(BusError::InvalidBrightness));
    assert_eq!(refused.unwrap_err().message(), "brightness must be in range [0,1]");
    assert_eq!(refused.unwrap_err().name(), "org.freedesktop.DBus.Error.InvalidArgs");
    assert_eq!(get_output(&state, 1, Property::Brightness), Ok(Value::Brightness(b(0.5))));
    assert_eq!(get_output(&state, 2, Property::Brightness), Ok(Value::Brightness(b(1.0))));
    assert_eq!(changes(&state, &before, true, Property::Brightness), vec![]);
}

#[test]
fn hot_plug() {
    let mut state = WaylandState::new();
    assert_eq!(read_root(&state, Property::Temperature), Value::Temperature(6500));
    let (brightness, gamma) = means(&state);
    let initial = state.color(brightness, gamma);
    assert!(state.global(40, 41, 42, initial));
    assert_eq!(state.output_name(41, "HDMI-A-1".to_string()), Naming::Named);
    assert!(state.gamma_size(42, 1024));
    assert_eq!(
        state.output_by_reg_name(40).unwrap().object_path(),
        Some("/outputs/HDMI_A_1".to_string())
    );
    assert_eq!(get_output(&state, 40, Property::Temperature), Ok(Value::Temperature(6500)));
    let publications = state.publications();
    assert_eq!(publications.len(), 1);
    assert_eq!(publications[0].ramp_size, 1024);
    assert_eq!(publications[0].byte_len(), 6144);
    assert_eq!(publications[0].color, Color::default());
}

#[test]
fn a_display_that_is_plugged_in_takes_the_aggregate() {
    let mut state = displays(&["a", "b"]);
    set_output(&mut state, 1, Value::Temperature(4000)).unwrap();
    set_output(&mut state, 2, Value::Temperature(6000)).unwrap();
    set_root(&mut state, Value::Brightness(b(0.5))).unwrap();
    let (brightness, gamma) = means(&state);
    let initial = state.color(brightness, gamma);
    assert!(state.global(3, 13, 23, initial));
    assert_eq!(get_output(&state, 3, Property::Temperature), Ok(Value::Temperature(5000)));
    assert_eq!(get_output(&state, 3, Property::Brightness), Ok(Value::Brightness(b(0.5))));
}

#[test]
fn writing_the_same_value_twice_signals_once() {
    for at_root in [true, false] {
        for value in [
            Value::Temperature(4000),
            Value::Brightness(b(0.5)),
            Value::Gamma(b(2.0)),
            Value::Inverted(true),
        ] {
            let mut state = displays(&["a", "b"]);
            let before = snapshot(&state);
            let write = |state: &mut WaylandState| {
                if at_root {
                    set_root(state, value)
                } else {
                    set_output(state, 2, value)
                }
            };
            assert_eq!(write(&mut state), Ok(()));
            let first = changes(&state, &before, at_root, value.property());
            assert!(!first.is_empty());
            let mut paths: Vec<&String> = first.iter().map(|(path, _)| path).collect();
            paths.sort();
            paths.dedup();
            assert_eq!(paths.len(), first.len());
            let before = snapshot(&state);
            assert_eq!(write(&mut state), Ok(()));
            assert_eq!(changes(&state, &before, at_root, value.property()), vec![]);
        }
    }
}

#[test]
fn out_of_range_writes_are_refused_and_change_nothing() {
    let cases = [
        (Value::Temperature(999), BusError::InvalidTemperature),
        (Value::Temperature(10001), BusError::InvalidTemperature),
        (Value::Temperature(0), BusError::InvalidTemperature),
        (Value::Brightness(b(-0.1)), BusError::InvalidBrightness),
        (Value::Brightness(b(1.1)), BusError::InvalidBrightness),
        (Value::Brightness(b(f64::NAN)), BusError::InvalidBrightness),
    ];
    for (value, error) in cases {
        let mut state = displays(&["a"]);
        let before = snapshot(&state);
        assert_eq!(set_root(&mut state, value), Err(error));
        assert_eq!(set_output(&mut state, 1, value), Err(error));
        assert_eq!(state.outputs()[0].color(), Color::default());
        assert_eq!(changes(&state, &before, true, value.property()), vec![]);
        assert_eq!(error.name(), "org.freedesktop.DBus.Error.InvalidArgs");
    }
    assert_eq!(
        BusError::InvalidTemperature.message(),
        "temperature must be in range [1000,10000]"
    );
}

#[test]
fn gamma_must_be_positive_at_the_root_and_a_tenth_for_a_display() {
    let mut state = displays(&["a"]);
    assert_eq!(set_root(&mut state, Value::Gamma(b(0.0))), Err(BusError::GammaNotPositive));
    assert_eq!(set_root(&mut state, Value::Gamma(b(-1.0))), Err(BusError::GammaNotPositive));
    assert_eq!(set_root(&mut state, Value::Gamma(b(f64::NAN))), Err(BusError::GammaNotPositive));
    assert_eq!(set_output(&mut state, 1, Value::Gamma(b(0.05))), Err(BusError::GammaTooSmall));
    assert_eq!(set_output(&mut state, 1, Value::Gamma(b(0.0))), Err(BusError::GammaTooSmall));
    assert_eq!(state.outputs()[0].color().gamma, b(1.0));
    assert_eq!(set_root(&mut state, Value::Gamma(b(0.05))), Ok(()));
    assert_eq!(state.outputs()[0].color().gamma, b(0.1));
    assert_eq!(set_output(&mut state, 1, Value::Gamma(b(0.1))), Ok(()));
    assert_eq!(set_output(&mut state, 1, Value::Gamma(b(2.5))), Ok(()));
    assert_eq!(state.outputs()[0].color().gamma, b(2.5));
    assert_eq!(BusError::GammaNotPositive.message(), "gamma must be greater than 0");
    assert_eq!(BusError::GammaTooSmall.message(), "gamma must be at least 0.1");
}

#[test]
fn validate_says_which_change_a_write_asks_for() {
    assert_eq!(
        validate(true, Value::Temperature(1000)),
        Ok(Change::Assign(Value::Temperature(1000)))
    );
    assert_eq!(
        validate(false, Value::Temperature(10000)),
        Ok(Change::Assign(Value::Temperature(10000)))
    );
    assert_eq!(
        validate(true, Value::Brightness(b(0.0))),
        Ok(Change::Assign(Value::Brightness(b(0.0))))
    );
    assert_eq!(
        validate(true, Value::Gamma(b(0.01))),
        Ok(Change::Assign(Value::Gamma(b(0.1))))
    );
    assert_eq!(validate(false, Value::Gamma(b(0.01))), Err(BusError::GammaTooSmall));
    assert_eq!(
        validate(false, Value::Inverted(true)),
        Ok(Change::Assign(Value::Inverted(true)))
    );
}

#[test]
fn a_call_for_a_display_that_is_gone_fails() {
    let mut state = displays(&["a"]);
    assert_eq!(get_output(&state, 5, Property::Gamma), Err(BusError::UnknownObject));
    assert_eq!(
        set_output(&mut state, 5, Value::Temperature(4000)),
        Err(BusError::UnknownObject)
    );
    assert_eq!(
        set_output(&mut state, 5, Value::Temperature(1)),
        Err(BusError::UnknownObject)
    );
    assert_eq!(
        update_output(&mut state, 5, Change::ToggleInverted),
        Err(BusError::UnknownObject)
    );
    assert_eq!(state.outputs()[0].color(), Color::default());
    assert_eq!(BusError::UnknownObject.name(), "org.freedesktop.DBus.Error.UnknownObject");
    assert_eq!(BusError::UnknownObject.message(), "no such output");
}

#[test]
fn a_write_at_the_root_reaches_displays_that_differ_even_if_the_aggregate_stays() {
    let mut state = displays(&["a", "b"]);
    set_output(&mut state, 1, Value::Inverted(true)).unwrap();
    assert_eq!(read_root(&state, Property::Inverted), Value::Inverted(false));
    let before = snapshot(&state);
    assert_eq!(set_root(&mut state, Value::Inverted(false)), Ok(()));
    assert_eq!(get_output(&state, 1, Property::Inverted), Ok(Value::Inverted(false)));
    assert_eq!(
        changes(&state, &before, true, Property::Inverted),
        vec![at("/outputs/a", Value::Inverted(false))]
    );
}

#[test]
fn a_change_of_one_display_that_leaves_the_aggregate_signals_on_its_path_only() {
    let mut state = displays(&["a", "b"]);
    let before = snapshot(&state);
    update_output(&mut state, 1, Change::ToggleInverted).unwrap();
    assert_eq!(
        changes(&state, &before, false, Property::Inverted),
        vec![at("/outputs/a", Value::Inverted(true))]
    );
    let before = snapshot(&state);
    update_output(&mut state, 2, Change::ToggleInverted).unwrap();
    assert_eq!(
        changes(&state, &before, false, Property::Inverted),
        vec![at("/outputs/b", Value::Inverted(true)), at("/", Value::Inverted(true))]
    );
    let before = snapshot(&state);
    update_output(&mut state, 1, Change::ShiftTemperature(1)).unwrap();
    assert_eq!(
        changes(&state, &before, false, Property::Temperature),
        vec![at("/outputs/a", Value::Temperature(6501))]
    );
}

#[test]
fn toggle_at_the_root_inverts_all_unless_all_are_inverted() {
    let mut state = displays(&["a", "b"]);
    update_output(&mut state, 1, Change::ToggleInverted).unwrap();
    let before = snapshot(&state);
    toggle_inverted_root(&mut state);
    assert_eq!(get_output(&state, 1, Property::Inverted), Ok(Value::Inverted(true)));
    assert_eq!(get_output(&state, 2, Property::Inverted), Ok(Value::Inverted(true)));
    assert_eq!(
        changes(&state, &before, true, Property::Inverted),
        vec![at("/", Value::Inverted(true)), at("/outputs/b", Value::Inverted(true))]
    );
    let before = snapshot(&state);
    toggle_inverted_root(&mut state);
    assert_eq!(get_output(&state, 1, Property::Inverted), Ok(Value::Inverted(false)));
    assert_eq!(get_output(&state, 2, Property::Inverted), Ok(Value::Inverted(false)));
    assert_eq!(
        changes(&state, &before, true, Property::Inverted),
        vec![
            at("/", Value::Inverted(false)),
            at("/outputs/a", Value::Inverted(false)),
            at("/outputs/b", Value::Inverted(false)),
        ]
    );
}

#[test]
fn toggle_at_the_root_without_displays_is_silent() {
    let mut state = WaylandState::new();
    let before = snapshot(&state);
    toggle_inverted_root(&mut state);
    assert_eq!(read_root(&state, Property::Inverted), Value::Inverted(false));
    assert_eq!(changes(&state, &before, true, Property::Inverted), vec![]);
}

#[test]
fn update_at_the_root_clamps_unevenly_and_each_path_reports_its_own_value() {
    let mut state = displays(&["a", "b"]);
    set_output(&mut state, 1, Value::Temperature(9500)).unwrap();
    set_output(&mut state, 2, Value::Temperature(5000)).unwrap();
    let before = snapshot(&state);
    assert!(state.update_temperature(1000));
    assert_eq!(
        changes(&state, &before, true, Property::Temperature),
        vec![
            at("/", Value::Temperature(8000)),
            at("/outputs/a", Value::Temperature(10000)),
            at("/outputs/b", Value::Temperature(6000)),
        ]
    );
}

#[test]
fn brightness_update_at_the_root_signals_the_new_mean() {
    let mut state = displays(&["a", "b"]);
    set_output(&mut state, 1, Value::Brightness(b(0.5))).unwrap();
    let before = snapshot(&state);
    let sums: Vec<Binary64> =
        state.outputs().iter().map(|o| b(f(o.color().brightness) + 0.25)).collect();
    assert!(state.update_brightness(&sums));
    assert_eq!(
        changes(&state, &before, true, Property::Brightness),
        vec![
            at("/", Value::Brightness(b((0.75 + 1.0) / 2.0))),
            at("/outputs/a", Value::Brightness(b(0.75))),
        ]
    );
}

#[test]
fn an_unnamed_display_changes_without_a_signal_of_its_own() {
    let mut state = WaylandState::new();
    state.global(1, 11, 21, Color::default());
    let before = snapshot(&state);
    set_output(&mut state, 1, Value::Temperature(3000)).unwrap();
    assert_eq!(
        changes(&state, &before, false, Property::Temperature),
        vec![at("/", Value::Temperature(3000))]
    );
}

#[test]
fn signals_are_about_one_property_only() {
    let mut state = displays(&["a"]);
    let before = snapshot(&state);
    set_root(&mut state, Value::Temperature(3000)).unwrap();
    assert_eq!(changes(&state, &before, true, Property::Brightness), vec![]);
    assert_eq!(changes(&state, &before, true, Property::Gamma), vec![]);
    assert_eq!(changes(&state, &before, true, Property::Inverted), vec![]);
    assert_eq!(changes(&state, &before, true, Property::Temperature).len(), 2);
}

#[test]
fn a_display_that_came_after_the_snapshot_gets_no_signal() {
    let mut state = displays(&["a"]);
    let before = snapshot(&state);
    state.global(2, 12, 22, Color { temp: 3000, ..Color::default() });
    state.output_name(12, "b".to_string());
    assert_eq!(
        changes(&state, &before, true, Property::Temperature),
        vec![at("/", Value::Temperature(4750))]
    );
}

#[test]
fn the_names_on_the_bus() {
    assert_eq!(bus_name(), "rs.wl-gammarelay");
    assert_eq!(interface_name(), "rs.wl.gammarelay");
    assert_eq!(properties_interface(), "org.freedesktop.DBus.Properties");
    assert_eq!(member(), "PropertiesChanged");
}

#[test]
fn methods_are_known_by_interface_and_member() {
    let properties = Some("org.freedesktop.DBus.Properties");
    let colour = Some("rs.wl.gammarelay");
    assert_eq!(method(properties, "Get"), Some(Method::GetProperty));
    assert_eq!(method(properties, "Set"), Some(Method::SetProperty));
    assert_eq!(method(properties, "GetAll"), Some(Method::GetAllProperties));
    assert_eq!(method(properties, "UpdateGamma"), None);
    assert_eq!(method(colour, "UpdateTemperature"), Some(Method::UpdateTemperature));
    assert_eq!(method(colour, "UpdateBrightness"), Some(Method::UpdateBrightness));
    assert_eq!(method(colour, "UpdateGamma"), Some(Method::UpdateGamma));
    assert_eq!(method(colour, "ToggleInverted"), Some(Method::ToggleInverted));
    assert_eq!(method(colour, "Get"), None);
    assert_eq!(method(colour, "toggleinverted"), None);
    assert_eq!(method(Some("org.freedesktop.DBus.Peer"), "Ping"), None);
    assert_eq!(method(Some(""), "Get"), None);
}

#[test]
fn a_call_without_an_interface_is_looked_up_in_both() {
    assert_eq!(method(None, "Get"), Some(Method::GetProperty));
    assert_eq!(method(None, "Set"), Some(Method::SetProperty));
    assert_eq!(method(None, "GetAll"), Some(Method::GetAllProperties));
    assert_eq!(method(None, "UpdateTemperature"), Some(Method::UpdateTemperature));
    assert_eq!(method(None, "UpdateBrightness"), Some(Method::UpdateBrightness));
    assert_eq!(method(None, "UpdateGamma"), Some(Method::UpdateGamma));
    assert_eq!(method(None, "ToggleInverted"), Some(Method::ToggleInverted));
    assert_eq!(method(None, "Introspect"), None);
}

#[test]
fn gamma_updates_of_one_display_signal_its_value_and_the_new_mean() {
    let mut state = displays(&["a", "b"]);
    let before = snapshot(&state);
    let old = f(state.outputs()[1].color().gamma);
    update_output(&mut state, 2, Change::ShiftGamma(b(old + 1.0))).unwrap();
    assert_eq!(
        changes(&state, &before, false, Property::Gamma),
        vec![at("/outputs/b", Value::Gamma(b(2.0))), at("/", Value::Gamma(b(1.5)))]
    );
    let before = snapshot(&state);
    update_output(&mut state, 2, Change::ShiftGamma(b(2.0 - 5.0))).unwrap();
    assert_eq!(
        changes(&state, &before, false, Property::Gamma),
        vec![at("/outputs/b", Value::Gamma(b(0.1))), at("/", Value::Gamma(b((1.0 + 0.1) / 2.0)))]
    );
}
