//! One display of the compositor.

use crate::color::Color;
use crate::text::{object_path, object_path_of};
use vstd::prelude::*;

verus! {

/// What a display is, as contracts see it.
pub struct OutputView {
    /// The number under which the compositor's registry announced the display.
    pub reg_name: u32,
    /// The identity of the display's `wl_output` object.
    pub wl: u32,
    /// The identity of the display's gamma-control object.
    pub gamma_control: u32,
    /// The compositor's name for the display, once it has arrived.
    pub name: Option<Seq<char>>,
    /// The colour that the display is meant to show.
    pub color: Color,
    /// Entries per channel of the display's gamma ramp; 0 until granted.
    pub ramp_size: u32,
    /// Whether the colour differs from the one that was last published.
    pub color_changed: bool,
}

impl OutputView {
    /// A display as it is right after it was bound: unnamed, default colour,
    /// no ramp size yet, and its colour not yet published.
    pub open spec fn bound(reg_name: u32, wl: u32, gamma_control: u32) -> OutputView {
        OutputView {
            reg_name,
            wl,
            gamma_control,
            name: None,
            color: Color::spec_default(),
            ramp_size: 0,
            color_changed: true,
        }
    }

    /// The display after it was told to show `color`. A colour outside the
    /// domain is not taken, and one that is the same as the present colour
    /// changes nothing; any other is taken over and waits to be published.
    pub open spec fn with_color(self, color: Color) -> OutputView {
        if !color.valid() || color.spec_same(self.color) {
            self
        } else {
            OutputView { color, color_changed: true, ..self }
        }
    }

    /// The display's path on the bus; an unnamed display has none.
    pub open spec fn path(self) -> Option<Seq<char>> {
        match self.name {
            Some(name) => Some(object_path_of(name)),
            None => None,
        }
    }

    /// Whether a ramp can be published now: the colour waits to be published
    /// and the ramp size is known.
    pub open spec fn publishable(self) -> bool {
        self.color_changed && self.ramp_size > 0
    }
}

/// The highest version of `wl_output` that is of use: it is the first in which
/// the compositor tells a display's name.
pub const WL_OUTPUT_VERSION: u32 = 4;

/// The first version of `wl_output` that has the request `release`.
pub const WL_OUTPUT_RELEASE_SINCE: u32 = 3;

/// Whether a `wl_output` of this version is given up with `release`. An older
/// one is just forgotten.
pub fn can_release(version: u32) -> (r: bool)
    ensures
        r == (version >= WL_OUTPUT_RELEASE_SINCE),
{
    version >= WL_OUTPUT_RELEASE_SINCE
}

/// One display: its identities, its name, its colour, the size of its gamma
/// ramp and whether the colour still waits to be published.
#[derive(Debug)]
pub struct Output {
    reg_name: u32,
    wl: u32,
    gamma_control: u32,
    name: Option<String>,
    color: Color,
    ramp_size: u32,
    color_changed: bool,
}

impl View for Output {
    type V = OutputView;

    closed spec fn view(&self) -> OutputView {
        OutputView {
            reg_name: self.reg_name,
            wl: self.wl,
            gamma_control: self.gamma_control,
            name: match self.name {
                Some(name) => Some(name@),
                None => None,
            },
            color: self.color,
            ramp_size: self.ramp_size,
            color_changed: self.color_changed,
        }
    }
}

impl Output {
    /// A display that was just bound.
    pub fn bind(reg_name: u32, wl: u32, gamma_control: u32) -> (r: Output)
        ensures
            r@ == OutputView::bound(reg_name, wl, gamma_control),
    {
        Output {
            reg_name,
            wl,
            gamma_control,
            name: None,
            color: Color::default(),
            ramp_size: 0,
            color_changed: true,
        }
    }

    pub fn reg_name(&self) -> (r: u32)
        ensures
            r == self@.reg_name,
    {
        self.reg_name
    }

    pub fn wl(&self) -> (r: u32)
        ensures
            r == self@.wl,
    {
        self.wl
    }

    pub fn gamma_control(&self) -> (r: u32)
        ensures
            r == self@.gamma_control,
    {
        self.gamma_control
    }

    pub fn name(&self) -> (r: Option<&String>)
        ensures
            r is Some == self@.name is Some,
            r matches Some(name) ==> self@.name == Some(name@),
    {
        self.name.as_ref()
    }

    pub fn color(&self) -> (r: Color)
        ensures
            r == self@.color,
    {
        self.color
    }

    pub fn ramp_size(&self) -> (r: u32)
        ensures
            r == self@.ramp_size,
    {
        self.ramp_size
    }

    pub fn color_changed(&self) -> (r: bool)
        ensures
            r == self@.color_changed,
    {
        self.color_changed
    }

    /// Tells the display to show `color`. A colour outside the domain is not
    /// taken.
    pub fn set_color(&mut self, color: Color)
        ensures
            final(self)@ == old(self)@.with_color(color),
    {
        if color.is_valid() && !color.same(self.color) {
            self.color = color;
            self.color_changed = true;
        }
    }

    /// The display's path on the bus, if it has a name.
    pub fn object_path(&self) -> (r: Option<String>)
        ensures
            r is Some == self@.path() is Some,
            r matches Some(path) ==> self@.path() == Some(path@),
    {
        match &self.name {
            Some(name) => Some(object_path(name.as_str())),
            None => None,
        }
    }

    /// Gives up the display for its name.
    pub(crate) fn into_name(self) -> (r: Option<String>)
        ensures
            r is Some == self@.name is Some,
            r matches Some(name) ==> self@.name == Some(name@),
    {
        self.name
    }

    /// Records the compositor's name for the display.
    pub(crate) fn set_name(&mut self, name: String)
        ensures
            final(self)@ == (OutputView { name: Some(name@), ..old(self)@ }),
    {
        self.name = Some(name);
    }

    /// Records the ramp size that the compositor granted. The colour then
    /// waits to be published with it.
    pub(crate) fn set_ramp_size(&mut self, ramp_size: u32)
        ensures
            final(self)@ == (OutputView { ramp_size, color_changed: true, ..old(self)@ }),
    {
        self.ramp_size = ramp_size;
        self.color_changed = true;
    }

    /// Records that the colour was published.
    pub(crate) fn set_displayed(&mut self)
        ensures
            final(self)@ == (OutputView { color_changed: false, ..old(self)@ }),
    {
        self.color_changed = false;
    }
}

} // verus!
