//! The colour of a display and the domain of each of its parts.

use crate::binary64::{Binary64, ONE_BITS, TENTH_BITS, ZERO_BITS};
use vstd::prelude::*;

verus! {

/// Lowest colour temperature, in kelvin.
pub const TEMP_MIN: u16 = 1000;

/// Highest colour temperature, in kelvin.
pub const TEMP_MAX: u16 = 10000;

/// The temperature of an uncorrected display, in kelvin.
pub const TEMP_DEFAULT: u16 = 6500;

/// A temperature is in the domain when it lies in `[1000, 10000]`.
pub open spec fn valid_temperature(temp: u16) -> bool {
    TEMP_MIN <= temp <= TEMP_MAX
}

/// A brightness is in the domain when it is a number in `[0, 1]`.
pub open spec fn valid_brightness(brightness: Binary64) -> bool {
    (Binary64 { bits: ZERO_BITS }).spec_le(brightness) && brightness.spec_le(
        Binary64 { bits: ONE_BITS },
    )
}

/// A gamma is in the domain when it is a number that is at least `0.1`.
pub open spec fn valid_gamma(gamma: Binary64) -> bool {
    (Binary64 { bits: TENTH_BITS }).spec_le(gamma)
}

/// `temp + delta`, brought into the domain of temperatures.
pub open spec fn shifted_temperature(temp: u16, delta: i16) -> u16 {
    if temp + delta < TEMP_MIN {
        TEMP_MIN
    } else if temp + delta > TEMP_MAX {
        TEMP_MAX
    } else {
        (temp + delta) as u16
    }
}

/// The brightness that follows `old` when its sum with a delta is `sum`: the
/// sum brought into `[0, 1]`. A sum that is not a number changes nothing.
pub open spec fn shifted_brightness(old: Binary64, sum: Binary64) -> Binary64 {
    if sum.spec_is_nan() {
        old
    } else {
        sum.spec_clamp(Binary64 { bits: ZERO_BITS }, Binary64 { bits: ONE_BITS })
    }
}

/// The gamma that follows when the sum of the old gamma and a delta is `sum`:
/// the sum, but at least `0.1`. A sum that is not a number gives `0.1`.
pub open spec fn shifted_gamma(sum: Binary64) -> Binary64 {
    sum.spec_at_least(Binary64 { bits: TENTH_BITS })
}

/// Colour parameters of one display.
///
/// `gamma` and `brightness` are binary64 numbers; `==` on two colours compares
/// their bit patterns, [`Color::same`] compares them as numbers.
#[derive(Clone, Copy, Debug, PartialEq, Eq, Structural)]
pub struct Color {
    pub temp: u16,
    pub gamma: Binary64,
    pub brightness: Binary64,
    pub inverted: bool,
}

impl Color {
    /// The colour of an uncorrected display: 6500 K, gamma 1.0, full
    /// brightness, not inverted.
    pub open spec fn spec_default() -> Color {
        Color {
            temp: TEMP_DEFAULT,
            gamma: Binary64 { bits: ONE_BITS },
            brightness: Binary64 { bits: ONE_BITS },
            inverted: false,
        }
    }

    /// Every part lies in its domain.
    pub open spec fn valid(self) -> bool {
        &&& valid_temperature(self.temp)
        &&& valid_brightness(self.brightness)
        &&& valid_gamma(self.gamma)
    }

    /// The two colours are the same colour: equal temperature and inversion,
    /// and gamma and brightness equal as numbers.
    pub open spec fn spec_same(self, other: Color) -> bool {
        &&& self.temp == other.temp
        &&& self.inverted == other.inverted
        &&& self.gamma.spec_equals(other.gamma)
        &&& self.brightness.spec_equals(other.brightness)
    }

    /// `self` with the temperature shifted by `delta`.
    pub open spec fn shift_temperature(self, delta: i16) -> Color {
        Color { temp: shifted_temperature(self.temp, delta), ..self }
    }

    /// `self` with the brightness that follows from `sum`.
    pub open spec fn shift_brightness(self, sum: Binary64) -> Color {
        Color { brightness: shifted_brightness(self.brightness, sum), ..self }
    }

    /// `self` with the gamma that follows from `sum`.
    pub open spec fn shift_gamma(self, sum: Binary64) -> Color {
        Color { gamma: shifted_gamma(sum), ..self }
    }

    #[verifier::when_used_as_spec(valid)]
    pub fn is_valid(self) -> (r: bool)
        ensures
            r == self.valid(),
    {
        TEMP_MIN <= self.temp && self.temp <= TEMP_MAX && Binary64::zero().le(self.brightness)
            && self.brightness.le(Binary64::one()) && Binary64::tenth().le(self.gamma)
    }

    #[verifier::when_used_as_spec(spec_same)]
    pub fn same(self, other: Color) -> (r: bool)
        ensures
            r == self.spec_same(other),
    {
        self.temp == other.temp && self.inverted == other.inverted && self.gamma.equals(
            other.gamma,
        ) && self.brightness.equals(other.brightness)
    }

    /// The colour after the temperature was shifted by `delta` and brought
    /// back into `[1000, 10000]`, or `None` if that changes nothing.
    pub fn with_updated_temp(self, delta: i16) -> (r: Option<Color>)
        ensures
            shifted_temperature(self.temp, delta) == self.temp ==> r is None,
            shifted_temperature(self.temp, delta) != self.temp ==> r == Some(
                self.shift_temperature(delta),
            ),
    {
        let sum: i32 = self.temp as i32 + delta as i32;
        let temp: u16 = if sum < TEMP_MIN as i32 {
            TEMP_MIN
        } else if sum > TEMP_MAX as i32 {
            TEMP_MAX
        } else {
            sum as u16
        };
        if temp == self.temp {
            None
        } else {
            Some(Color { temp, ..self })
        }
    }

    /// The colour after the brightness moved to `sum`, the caller's sum of the
    /// brightness and a delta, and was brought back into `[0, 1]`; `None` if
    /// that leaves the brightness the number it was.
    pub fn with_updated_brightness(self, sum: Binary64) -> (r: Option<Color>)
        ensures
            shifted_brightness(self.brightness, sum).spec_equals(self.brightness) || sum.spec_is_nan()
                ==> r is None,
            !shifted_brightness(self.brightness, sum).spec_equals(self.brightness)
                && !sum.spec_is_nan() ==> r == Some(self.shift_brightness(sum)),
    {
        if sum.is_nan() {
            return None;
        }
        let brightness = sum.clamp(Binary64::zero(), Binary64::one());
        if brightness.equals(self.brightness) {
            None
        } else {
            Some(Color { brightness, ..self })
        }
    }

    /// The colour after the gamma moved to `sum`, the caller's sum of the gamma
    /// and a delta, and was raised to `0.1` where it fell below; `None` if that
    /// leaves the gamma the number it was.
    pub fn with_updated_gamma(self, sum: Binary64) -> (r: Option<Color>)
        ensures
            shifted_gamma(sum).spec_equals(self.gamma) ==> r is None,
            !shifted_gamma(sum).spec_equals(self.gamma) ==> r == Some(self.shift_gamma(sum)),
    {
        let gamma = sum.at_least(Binary64::tenth());
        if gamma.equals(self.gamma) {
            None
        } else {
            Some(Color { gamma, ..self })
        }
    }
}

impl Default for Color {
    fn default() -> (r: Color)
        ensures
            r == Color::spec_default(),
    {
        Color {
            temp: TEMP_DEFAULT,
            gamma: Binary64::one(),
            brightness: Binary64::one(),
            inverted: false,
        }
    }
}

} // verus!
