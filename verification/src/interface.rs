//! The properties and methods that the bus exposes at `/` and at each
//! `/outputs/<name>`.
//!
//! A call on a display's object reads or changes that display. A call on `/`
//! reads the aggregate of all displays or changes every display. A property
//! is written only with a value of its domain; a method that updates a
//! property brings the result back into the domain.

use crate::binary64::{Binary64, TENTH_BITS, ZERO_BITS};
use crate::color::{valid_brightness, valid_gamma, valid_temperature};
use crate::output::OutputView;
use crate::property::{Change, Property, Value};
use crate::signal::{colors_of, lemma_no_change_is_silent, signals_of, SignalView};
use crate::state::{
    aggregate, apart, brightness_shifts, changed_all, changed_each, changed_one, gamma_shifts,
    has_reg_name, index_of_reg_name, well_formed, WaylandState,
};
use crate::text::same_text;
use vstd::prelude::*;

verus! {

/// What a method call on the bus asks of an object.
#[derive(Clone, Copy, Debug, PartialEq, Eq, Structural)]
pub enum Method {
    /// `org.freedesktop.DBus.Properties.Get`: read one property.
    GetProperty,
    /// `org.freedesktop.DBus.Properties.Set`: write one property.
    SetProperty,
    /// `org.freedesktop.DBus.Properties.GetAll`: read all four properties.
    GetAllProperties,
    /// `rs.wl.gammarelay.UpdateTemperature`, with a delta in kelvin.
    UpdateTemperature,
    /// `rs.wl.gammarelay.UpdateBrightness`, with a delta.
    UpdateBrightness,
    /// `rs.wl.gammarelay.UpdateGamma`, with a delta.
    UpdateGamma,
    /// `rs.wl.gammarelay.ToggleInverted`.
    ToggleInverted,
}

/// The well-known name that the daemon owns on the bus.
pub open spec fn spec_bus_name() -> Seq<char> {
    "rs.wl-gammarelay"@
}

/// The name of the colour interface.
pub open spec fn spec_interface_name() -> Seq<char> {
    "rs.wl.gammarelay"@
}

/// The name of the interface through which properties are read and written.
pub open spec fn spec_properties_interface() -> Seq<char> {
    "org.freedesktop.DBus.Properties"@
}

/// The method with this member name in the properties interface.
pub open spec fn properties_method(member: Seq<char>) -> Option<Method> {
    if member == "Get"@ {
        Some(Method::GetProperty)
    } else if member == "Set"@ {
        Some(Method::SetProperty)
    } else if member == "GetAll"@ {
        Some(Method::GetAllProperties)
    } else {
        None
    }
}

/// The method with this member name in the colour interface.
pub open spec fn gammarelay_method(member: Seq<char>) -> Option<Method> {
    if member == "UpdateTemperature"@ {
        Some(Method::UpdateTemperature)
    } else if member == "UpdateBrightness"@ {
        Some(Method::UpdateBrightness)
    } else if member == "UpdateGamma"@ {
        Some(Method::UpdateGamma)
    } else if member == "ToggleInverted"@ {
        Some(Method::ToggleInverted)
    } else {
        None
    }
}

/// What a method call asks for, by the interface and the member that it
/// names. A call that names no interface is looked up in both.
pub open spec fn spec_method(interface: Option<Seq<char>>, member: Seq<char>) -> Option<Method> {
    match interface {
        Some(name) => if name == spec_properties_interface() {
            properties_method(member)
        } else if name == spec_interface_name() {
            gammarelay_method(member)
        } else {
            None
        },
        None => match properties_method(member) {
            Some(method) => Some(method),
            None => gammarelay_method(member),
        },
    }
}

/// The well-known name that the daemon owns on the bus.
pub fn bus_name() -> (r: &'static str)
    ensures
        r@ == spec_bus_name(),
{
    "rs.wl-gammarelay"
}

/// The name of the colour interface.
pub fn interface_name() -> (r: &'static str)
    ensures
        r@ == spec_interface_name(),
{
    "rs.wl.gammarelay"
}

/// The name of the interface through which properties are read and written.
pub fn properties_interface() -> (r: &'static str)
    ensures
        r@ == spec_properties_interface(),
{
    "org.freedesktop.DBus.Properties"
}

fn method_of_properties(member: &str) -> (r: Option<Method>)
    ensures
        r == properties_method(member@),
{
    if same_text(member, "Get") {
        Some(Method::GetProperty)
    } else if same_text(member, "Set") {
        Some(Method::SetProperty)
    } else if same_text(member, "GetAll") {
        Some(Method::GetAllProperties)
    } else {
        None
    }
}

fn method_of_gammarelay(member: &str) -> (r: Option<Method>)
    ensures
        r == gammarelay_method(member@),
{
    if same_text(member, "UpdateTemperature") {
        Some(Method::UpdateTemperature)
    } else if same_text(member, "UpdateBrightness") {
        Some(Method::UpdateBrightness)
    } else if same_text(member, "UpdateGamma") {
        Some(Method::UpdateGamma)
    } else if same_text(member, "ToggleInverted") {
        Some(Method::ToggleInverted)
    } else {
        None
    }
}

/// What a method call asks for.
pub fn method(interface: Option<&str>, member: &str) -> (r: Option<Method>)
    ensures
        r == spec_method(
            match interface {
                Some(name) => Some(name@),
                None => None,
            },
            member@,
        ),
{
    match interface {
        Some(name) => if same_text(name, properties_interface()) {
            method_of_properties(member)
        } else if same_text(name, interface_name()) {
            method_of_gammarelay(member)
        } else {
            None
        },
        None => match method_of_properties(member) {
            Some(method) => Some(method),
            None => method_of_gammarelay(member),
        },
    }
}

/// Why a call on the bus failed.
#[derive(Clone, Copy, Debug, PartialEq, Eq, Structural)]
pub enum BusError {
    /// No live display stands behind the object that was called.
    UnknownObject,
    /// The temperature written lies outside `[1000, 10000]`.
    InvalidTemperature,
    /// The brightness written is no number in `[0, 1]`.
    InvalidBrightness,
    /// The gamma written at `/` is no number greater than zero.
    GammaNotPositive,
    /// The gamma written for a display is no number of at least `0.1`.
    GammaTooSmall,
}

/// The change that a write of `value` asks for, or why the write is refused.
/// `at_root` tells a write at `/` from a write for one display: at `/` any
/// gamma above zero is accepted and raised to `0.1` where it is less.
pub open spec fn spec_validate(at_root: bool, value: Value) -> Result<Change, BusError> {
    match value {
        Value::Temperature(temp) => if valid_temperature(temp) {
            Ok(Change::Assign(value))
        } else {
            Err(BusError::InvalidTemperature)
        },
        Value::Brightness(brightness) => if valid_brightness(brightness) {
            Ok(Change::Assign(value))
        } else {
            Err(BusError::InvalidBrightness)
        },
        Value::Gamma(gamma) => if at_root {
            if (Binary64 { bits: ZERO_BITS }).spec_lt(gamma) {
                Ok(
                    Change::Assign(
                        Value::Gamma(gamma.spec_at_least(Binary64 { bits: TENTH_BITS })),
                    ),
                )
            } else {
                Err(BusError::GammaNotPositive)
            }
        } else {
            if valid_gamma(gamma) {
                Ok(Change::Assign(value))
            } else {
                Err(BusError::GammaTooSmall)
            }
        },
        Value::Inverted(_) => Ok(Change::Assign(value)),
    }
}

/// The displays after `value` was written at `/`: every display takes it, or
/// nothing changes if the write is refused.
pub open spec fn written_at_root(displays: Seq<OutputView>, value: Value) -> Seq<OutputView> {
    match spec_validate(true, value) {
        Ok(change) => changed_all(displays, change),
        Err(_) => displays,
    }
}

/// The displays after `value` was written for the display `reg_name`: that
/// display takes it, or nothing changes if the write is refused.
pub open spec fn written_at_output(displays: Seq<OutputView>, reg_name: u32, value: Value) -> Seq<
    OutputView,
> {
    match spec_validate(false, value) {
        Ok(change) => changed_one(displays, reg_name, change),
        Err(_) => displays,
    }
}

/// The change that `ToggleInverted` at `/` makes to every display: each
/// becomes inverted unless all of them are.
pub open spec fn root_toggle(displays: Seq<OutputView>) -> Change {
    Change::Assign(
        Value::Inverted(
            !aggregate(displays, Binary64 { bits: ZERO_BITS }, Binary64 { bits: ZERO_BITS }).inverted,
        ),
    )
}

impl BusError {
    /// The name of the error on the bus.
    pub fn name(self) -> (r: &'static str)
        ensures
            self is UnknownObject ==> r@ == "org.freedesktop.DBus.Error.UnknownObject"@,
            !(self is UnknownObject) ==> r@ == "org.freedesktop.DBus.Error.InvalidArgs"@,
    {
        match self {
            BusError::UnknownObject => "org.freedesktop.DBus.Error.UnknownObject",
            _ => "org.freedesktop.DBus.Error.InvalidArgs",
        }
    }

    /// The words that go with the error.
    pub fn message(self) -> (r: &'static str)
        ensures
            r@ == match self {
                BusError::UnknownObject => "no such output"@,
                BusError::InvalidTemperature => "temperature must be in range [1000,10000]"@,
                BusError::InvalidBrightness => "brightness must be in range [0,1]"@,
                BusError::GammaNotPositive => "gamma must be greater than 0"@,
                BusError::GammaTooSmall => "gamma must be at least 0.1"@,
            },
    {
        match self {
            BusError::UnknownObject => "no such output",
            BusError::InvalidTemperature => "temperature must be in range [1000,10000]",
            BusError::InvalidBrightness => "brightness must be in range [0,1]",
            BusError::GammaNotPositive => "gamma must be greater than 0",
            BusError::GammaTooSmall => "gamma must be at least 0.1",
        }
    }
}

/// Checks a value that was written to a property.
#[verifier::when_used_as_spec(spec_validate)]
pub fn validate(at_root: bool, value: Value) -> (r: Result<Change, BusError>)
    ensures
        r == spec_validate(at_root, value),
{
    match value {
        Value::Temperature(temp) => if 1000 <= temp && temp <= 10000 {
            Ok(Change::Assign(value))
        } else {
            Err(BusError::InvalidTemperature)
        },
        Value::Brightness(brightness) => if Binary64::zero().le(brightness) && brightness.le(
            Binary64::one(),
        ) {
            Ok(Change::Assign(value))
        } else {
            Err(BusError::InvalidBrightness)
        },
        Value::Gamma(gamma) => if at_root {
            if Binary64::zero().lt(gamma) {
                Ok(Change::Assign(Value::Gamma(gamma.at_least(Binary64::tenth()))))
            } else {
                Err(BusError::GammaNotPositive)
            }
        } else {
            if Binary64::tenth().le(gamma) {
                Ok(Change::Assign(value))
            } else {
                Err(BusError::GammaTooSmall)
            }
        },
        Value::Inverted(_) => Ok(Change::Assign(value)),
    }
}

/// Reads a property at `/`: the aggregate over all displays. The means of
/// brightness and gamma are the caller's.
pub fn get_root(
    state: &WaylandState,
    property: Property,
    mean_brightness: Binary64,
    mean_gamma: Binary64,
) -> (r: Value)
    ensures
        r == aggregate(state.displays(), mean_brightness, mean_gamma).spec_get(property),
{
    state.color(mean_brightness, mean_gamma).get(property)
}

/// Reads a property of the display `reg_name`.
pub fn get_output(state: &WaylandState, reg_name: u32, property: Property) -> (r: Result<
    Value,
    BusError,
>)
    requires
        state.wf(),
    ensures
        match r {
            Ok(value) => has_reg_name(state.displays(), reg_name) && value
                == state.displays()[index_of_reg_name(
                state.displays(),
                reg_name,
            )].color.spec_get(property),
            Err(e) => e == BusError::UnknownObject && !has_reg_name(state.displays(), reg_name),
        },
{
    match state.output_by_reg_name(reg_name) {
        Some(output) => {
            Ok(output.color().get(property))
        },
        None => Err(BusError::UnknownObject),
    }
}

/// Writes a property at `/`. A value outside the property's domain is refused
/// and changes nothing; any other is taken by every display.
pub fn set_root(state: &mut WaylandState, value: Value) -> (r: Result<(), BusError>)
    requires
        old(state).wf(),
    ensures
        final(state).wf(),
        final(state).queued() == old(state).queued(),
        final(state).displays() == written_at_root(old(state).displays(), value),
        match spec_validate(true, value) {
            Ok(_) => r is Ok,
            Err(e) => r == Err::<(), BusError>(e),
        },
{
    match validate(true, value) {
        Ok(change) => {
            state.change_all(change);
            Ok(())
        },
        Err(e) => Err(e),
    }
}

/// Writes a property of the display `reg_name`. Without such a display the
/// call fails with `UnknownObject`; a value outside the property's domain is
/// refused; either way nothing changes. Any other value is taken by that
/// display.
pub fn set_output(state: &mut WaylandState, reg_name: u32, value: Value) -> (r: Result<
    (),
    BusError,
>)
    requires
        old(state).wf(),
    ensures
        final(state).wf(),
        final(state).queued() == old(state).queued(),
        final(state).displays() == written_at_output(old(state).displays(), reg_name, value),
        !has_reg_name(old(state).displays(), reg_name) ==> r == Err::<(), BusError>(
            BusError::UnknownObject,
        ),
        has_reg_name(old(state).displays(), reg_name) ==> match spec_validate(false, value) {
            Ok(_) => r is Ok,
            Err(e) => r == Err::<(), BusError>(e),
        },
{
    if state.output_by_reg_name(reg_name).is_none() {
        return Err(BusError::UnknownObject);
    }
    match validate(false, value) {
        Ok(change) => {
            state.change_one(reg_name, change);
            Ok(())
        },
        Err(e) => Err(e),
    }
}

/// Puts the display `reg_name` through `change`, as a method called on its
/// object does: `UpdateTemperature` with a shift by the delta,
/// `UpdateBrightness` and `UpdateGamma` with a shift to the caller's sum,
/// `ToggleInverted` with a toggle.
pub fn update_output(state: &mut WaylandState, reg_name: u32, change: Change) -> (r: Result<
    (),
    BusError,
>)
    requires
        old(state).wf(),
    ensures
        final(state).wf(),
        final(state).queued() == old(state).queued(),
        final(state).displays() == changed_one(old(state).displays(), reg_name, change),
        has_reg_name(old(state).displays(), reg_name) ==> r is Ok,
        !has_reg_name(old(state).displays(), reg_name) ==> r == Err::<(), BusError>(
            BusError::UnknownObject,
        ),
{
    if state.change_one(reg_name, change) {
        Ok(())
    } else {
        Err(BusError::UnknownObject)
    }
}

/// `ToggleInverted` at `/`: every display becomes inverted, unless all of them
/// are inverted already, in which case none stays so.
pub fn toggle_inverted_root(state: &mut WaylandState)
    requires
        old(state).wf(),
    ensures
        final(state).wf(),
        final(state).queued() == old(state).queued(),
        final(state).displays() == changed_all(
            old(state).displays(),
            root_toggle(old(state).displays()),
        ),
{
    let inverted = !state.color(Binary64::zero(), Binary64::zero()).inverted;
    state.set_inverted(inverted);
}

/// A call on the bus that can change the colour of a display.
pub enum Call {
    /// A property is written at `/`.
    WriteRoot(Value),
    /// A property of the display with this registry name is written.
    WriteOutput(u32, Value),
    /// `UpdateTemperature` at `/`, with the delta.
    UpdateTemperatureRoot(i16),
    /// `UpdateBrightness` at `/`, with the sum of each display's brightness
    /// and the delta.
    UpdateBrightnessRoot(Seq<Binary64>),
    /// `UpdateGamma` at `/`, with the sum of each display's gamma and the
    /// delta.
    UpdateGammaRoot(Seq<Binary64>),
    /// `ToggleInverted` at `/`.
    ToggleInvertedRoot,
    /// A method of the display with this registry name, as
    /// [`update_output`] takes it.
    UpdateOutput(u32, Change),
}

/// The displays after a call: what [`set_root`], [`set_output`],
/// [`WaylandState::update_temperature`], [`WaylandState::update_brightness`],
/// [`WaylandState::update_gamma`], [`toggle_inverted_root`] and
/// [`update_output`] leave behind.
pub open spec fn after_call(displays: Seq<OutputView>, call: Call) -> Seq<OutputView> {
    match call {
        Call::WriteRoot(value) => written_at_root(displays, value),
        Call::WriteOutput(reg_name, value) => written_at_output(displays, reg_name, value),
        Call::UpdateTemperatureRoot(delta) => changed_all(
            displays,
            Change::ShiftTemperature(delta),
        ),
        Call::UpdateBrightnessRoot(sums) => changed_each(displays, brightness_shifts(sums)),
        Call::UpdateGammaRoot(sums) => changed_each(displays, gamma_shifts(sums)),
        Call::ToggleInvertedRoot => changed_all(displays, root_toggle(displays)),
        Call::UpdateOutput(reg_name, change) => changed_one(displays, reg_name, change),
    }
}

/// The displays after a run of calls, first to last.
pub open spec fn after_calls(displays: Seq<OutputView>, calls: Seq<Call>) -> Seq<OutputView>
    decreases calls.len(),
{
    if calls.len() == 0 {
        displays
    } else {
        after_call(after_calls(displays, calls.drop_last()), calls.last())
    }
}

/// No call leads out of the domain: after any call, accepted or refused,
/// with any argument, the displays are well formed, and so the temperature of
/// each lies in `[1000, 10000]`, its brightness in `[0, 1]`, and its gamma is
/// at least `0.1`.
pub proof fn lemma_call_keeps_domain(displays: Seq<OutputView>, call: Call)
    requires
        well_formed(displays),
    ensures
        well_formed(after_call(displays, call)),
        after_call(displays, call).len() == displays.len(),
{
}

/// No run of calls leads out of the domain: whatever is written and whatever
/// is asked for, in whatever order, every display keeps a colour of the
/// domain.
pub proof fn lemma_calls_keep_domain(displays: Seq<OutputView>, calls: Seq<Call>)
    requires
        well_formed(displays),
    ensures
        well_formed(after_calls(displays, calls)),
        forall|i: int|
            0 <= i < after_calls(displays, calls).len() ==> (#[trigger] after_calls(
                displays,
                calls,
            )[i]).color.valid(),
    decreases calls.len(),
{
    if calls.len() > 0 {
        lemma_calls_keep_domain(displays, calls.drop_last());
        lemma_call_keeps_domain(after_calls(displays, calls.drop_last()), calls.last());
    }
}

/// The second of two equal writes at `/` is silent: it changes no display
/// and no signal follows it, given that the means handed in before and after
/// it are the same numbers.
pub proof fn lemma_second_write_at_root_is_silent(
    displays: Seq<OutputView>,
    value: Value,
    mean_brightness: Binary64,
    mean_gamma: Binary64,
)
    requires
        well_formed(displays),
        !mean_brightness.spec_is_nan(),
        !mean_gamma.spec_is_nan(),
    ensures
        ({
            let once = written_at_root(displays, value);
            let twice = written_at_root(once, value);
            &&& twice == once
            &&& signals_of(
                true,
                value.spec_property(),
                aggregate(once, mean_brightness, mean_gamma),
                colors_of(once),
                aggregate(twice, mean_brightness, mean_gamma),
                twice,
            ) == Seq::<SignalView>::empty()
        }),
{
    let once = written_at_root(displays, value);
    lemma_no_change_is_silent(once, true, value.spec_property(), mean_brightness, mean_gamma);
}

/// The second of two equal writes for a display is silent: it changes no
/// display and no signal follows it, given that the means handed in before
/// and after it are the same numbers.
pub proof fn lemma_second_write_at_output_is_silent(
    displays: Seq<OutputView>,
    reg_name: u32,
    value: Value,
    mean_brightness: Binary64,
    mean_gamma: Binary64,
)
    requires
        well_formed(displays),
        !mean_brightness.spec_is_nan(),
        !mean_gamma.spec_is_nan(),
    ensures
        ({
            let once = written_at_output(displays, reg_name, value);
            let twice = written_at_output(once, reg_name, value);
            &&& twice == once
            &&& signals_of(
                false,
                value.spec_property(),
                aggregate(once, mean_brightness, mean_gamma),
                colors_of(once),
                aggregate(twice, mean_brightness, mean_gamma),
                twice,
            ) == Seq::<SignalView>::empty()
        }),
{
    let once = written_at_output(displays, reg_name, value);
    lemma_no_change_is_silent(once, false, value.spec_property(), mean_brightness, mean_gamma);
}

} // verus!
