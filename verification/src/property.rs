//! The four properties of a colour, their values, and the changes that the
//! bus can ask for.

use crate::binary64::Binary64;
use crate::color::Color;
use crate::text::same_text;
use vstd::prelude::*;

verus! {

/// One of the four parts of a colour.
#[derive(Clone, Copy, Debug, PartialEq, Eq, Structural)]
pub enum Property {
    Temperature,
    Brightness,
    Gamma,
    Inverted,
}

/// A value of one property.
#[derive(Clone, Copy, Debug, PartialEq, Eq, Structural)]
pub enum Value {
    Temperature(u16),
    Brightness(Binary64),
    Gamma(Binary64),
    Inverted(bool),
}

/// A change to one part of a colour.
#[derive(Clone, Copy, Debug, PartialEq, Eq, Structural)]
pub enum Change {
    /// The property takes the value.
    Assign(Value),
    /// The temperature moves by the delta and is brought back into its domain.
    ShiftTemperature(i16),
    /// The brightness moves to the sum of itself and a delta, brought back
    /// into its domain. The sum is the caller's.
    ShiftBrightness(Binary64),
    /// The gamma moves to the sum of itself and a delta, but not below `0.1`.
    /// The sum is the caller's.
    ShiftGamma(Binary64),
    /// Inversion flips.
    ToggleInverted,
}

impl Property {
    /// The name of the property on the bus.
    pub open spec fn spec_name(self) -> Seq<char> {
        match self {
            Property::Temperature => "Temperature"@,
            Property::Brightness => "Brightness"@,
            Property::Gamma => "Gamma"@,
            Property::Inverted => "Inverted"@,
        }
    }

    /// The name of the property on the bus.
    pub fn name(self) -> (r: &'static str)
        ensures
            r@ == self.spec_name(),
    {
        match self {
            Property::Temperature => "Temperature",
            Property::Brightness => "Brightness",
            Property::Gamma => "Gamma",
            Property::Inverted => "Inverted",
        }
    }
}

/// The property with this name on the bus, if there is one.
pub open spec fn spec_property_named(name: Seq<char>) -> Option<Property> {
    if name == Property::Temperature.spec_name() {
        Some(Property::Temperature)
    } else if name == Property::Brightness.spec_name() {
        Some(Property::Brightness)
    } else if name == Property::Gamma.spec_name() {
        Some(Property::Gamma)
    } else if name == Property::Inverted.spec_name() {
        Some(Property::Inverted)
    } else {
        None
    }
}

/// The property with this name on the bus, if there is one.
pub fn property_named(name: &str) -> (r: Option<Property>)
    ensures
        r == spec_property_named(name@),
{
    if same_text(name, Property::Temperature.name()) {
        Some(Property::Temperature)
    } else if same_text(name, Property::Brightness.name()) {
        Some(Property::Brightness)
    } else if same_text(name, Property::Gamma.name()) {
        Some(Property::Gamma)
    } else if same_text(name, Property::Inverted.name()) {
        Some(Property::Inverted)
    } else {
        None
    }
}

impl Value {
    /// The property that this is a value of.
    pub open spec fn spec_property(self) -> Property {
        match self {
            Value::Temperature(_) => Property::Temperature,
            Value::Brightness(_) => Property::Brightness,
            Value::Gamma(_) => Property::Gamma,
            Value::Inverted(_) => Property::Inverted,
        }
    }

    /// The two are the same value of the same property; brightness and gamma
    /// are compared as numbers.
    pub open spec fn spec_same(self, other: Value) -> bool {
        match (self, other) {
            (Value::Temperature(a), Value::Temperature(b)) => a == b,
            (Value::Brightness(a), Value::Brightness(b)) => a.spec_equals(b),
            (Value::Gamma(a), Value::Gamma(b)) => a.spec_equals(b),
            (Value::Inverted(a), Value::Inverted(b)) => a == b,
            _ => false,
        }
    }

    #[verifier::when_used_as_spec(spec_property)]
    pub fn property(self) -> (r: Property)
        ensures
            r == self.spec_property(),
    {
        match self {
            Value::Temperature(_) => Property::Temperature,
            Value::Brightness(_) => Property::Brightness,
            Value::Gamma(_) => Property::Gamma,
            Value::Inverted(_) => Property::Inverted,
        }
    }

    #[verifier::when_used_as_spec(spec_same)]
    pub fn same(self, other: Value) -> (r: bool)
        ensures
            r == self.spec_same(other),
    {
        match (self, other) {
            (Value::Temperature(a), Value::Temperature(b)) => a == b,
            (Value::Brightness(a), Value::Brightness(b)) => a.equals(b),
            (Value::Gamma(a), Value::Gamma(b)) => a.equals(b),
            (Value::Inverted(a), Value::Inverted(b)) => a == b,
            _ => false,
        }
    }
}

impl Color {
    /// The value that the colour has for `property`.
    pub open spec fn spec_get(self, property: Property) -> Value {
        match property {
            Property::Temperature => Value::Temperature(self.temp),
            Property::Brightness => Value::Brightness(self.brightness),
            Property::Gamma => Value::Gamma(self.gamma),
            Property::Inverted => Value::Inverted(self.inverted),
        }
    }

    /// The colour with one property replaced by `value`.
    pub open spec fn spec_with(self, value: Value) -> Color {
        match value {
            Value::Temperature(temp) => Color { temp, ..self },
            Value::Brightness(brightness) => Color { brightness, ..self },
            Value::Gamma(gamma) => Color { gamma, ..self },
            Value::Inverted(inverted) => Color { inverted, ..self },
        }
    }

    #[verifier::when_used_as_spec(spec_get)]
    pub fn get(self, property: Property) -> (r: Value)
        ensures
            r == self.spec_get(property),
    {
        match property {
            Property::Temperature => Value::Temperature(self.temp),
            Property::Brightness => Value::Brightness(self.brightness),
            Property::Gamma => Value::Gamma(self.gamma),
            Property::Inverted => Value::Inverted(self.inverted),
        }
    }

    #[verifier::when_used_as_spec(spec_with)]
    pub fn with(self, value: Value) -> (r: Color)
        ensures
            r == self.spec_with(value),
    {
        match value {
            Value::Temperature(temp) => Color { temp, ..self },
            Value::Brightness(brightness) => Color { brightness, ..self },
            Value::Gamma(gamma) => Color { gamma, ..self },
            Value::Inverted(inverted) => Color { inverted, ..self },
        }
    }
}

impl Change {
    /// The property that the change is about.
    pub open spec fn spec_property(self) -> Property {
        match self {
            Change::Assign(value) => value.spec_property(),
            Change::ShiftTemperature(_) => Property::Temperature,
            Change::ShiftBrightness(_) => Property::Brightness,
            Change::ShiftGamma(_) => Property::Gamma,
            Change::ToggleInverted => Property::Inverted,
        }
    }

    /// The colour that `color` becomes under the change.
    pub open spec fn spec_apply(self, color: Color) -> Color {
        match self {
            Change::Assign(value) => color.spec_with(value),
            Change::ShiftTemperature(delta) => color.shift_temperature(delta),
            Change::ShiftBrightness(sum) => color.shift_brightness(sum),
            Change::ShiftGamma(sum) => color.shift_gamma(sum),
            Change::ToggleInverted => Color { inverted: !color.inverted, ..color },
        }
    }

    #[verifier::when_used_as_spec(spec_property)]
    pub fn property(self) -> (r: Property)
        ensures
            r == self.spec_property(),
    {
        match self {
            Change::Assign(value) => value.property(),
            Change::ShiftTemperature(_) => Property::Temperature,
            Change::ShiftBrightness(_) => Property::Brightness,
            Change::ShiftGamma(_) => Property::Gamma,
            Change::ToggleInverted => Property::Inverted,
        }
    }

    #[verifier::when_used_as_spec(spec_apply)]
    pub fn apply(self, color: Color) -> (r: Color)
        ensures
            r == self.spec_apply(color),
    {
        match self {
            Change::Assign(value) => color.with(value),
            Change::ShiftTemperature(delta) => match color.with_updated_temp(delta) {
                Some(shifted) => shifted,
                None => color,
            },
            Change::ShiftBrightness(sum) => {
                if sum.is_nan() {
                    color
                } else {
                    Color { brightness: sum.clamp(Binary64::zero(), Binary64::one()), ..color }
                }
            },
            Change::ShiftGamma(sum) => Color { gamma: sum.at_least(Binary64::tenth()), ..color },
            Change::ToggleInverted => Color { inverted: !color.inverted, ..color },
        }
    }
}

} // verus!
