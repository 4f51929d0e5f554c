//! The set of live displays and the queue of what happened to it.

use crate::binary64::Binary64;
use crate::color::{valid_temperature, Color};
use crate::output::{Output, OutputView};
use crate::property::{Change, Value};
use crate::text::{object_path, object_path_of};
use std::collections::VecDeque;
use vstd::prelude::*;

verus! {

/// What happened to the set of displays and still has to reach the bus.
#[derive(Debug)]
pub enum WaylandEvent {
    /// A display has learnt its name: it gets an object on the bus.
    NewOutput { reg_name: u32, name: String },
    /// A named display is gone: its object leaves the bus.
    RemoveOutput { name: String },
}

/// A [`WaylandEvent`] as contracts see it.
pub enum EventView {
    NewOutput { reg_name: u32, name: Seq<char> },
    RemoveOutput { name: Seq<char> },
}

impl View for WaylandEvent {
    type V = EventView;

    open spec fn view(&self) -> EventView {
        match *self {
            WaylandEvent::NewOutput { reg_name, name } => EventView::NewOutput {
                reg_name,
                name: name@,
            },
            WaylandEvent::RemoveOutput { name } => EventView::RemoveOutput { name: name@ },
        }
    }
}

/// The identities of a display that is gone. Its objects are the caller's to
/// destroy.
#[derive(Clone, Copy, Debug, PartialEq, Eq, Structural)]
pub struct Removed {
    pub reg_name: u32,
    pub wl: u32,
    pub gamma_control: u32,
}

/// A ramp that is to be published: for which display, through which
/// gamma-control object, with how many entries per channel, for which colour.
#[derive(Clone, Copy, Debug, PartialEq, Eq, Structural)]
pub struct Publication {
    pub reg_name: u32,
    pub gamma_control: u32,
    pub ramp_size: u32,
    pub color: Color,
}

/// What became of a name that the compositor sent for a display.
#[derive(Clone, Copy, Debug, PartialEq, Eq, Structural)]
pub enum Naming {
    /// The name was recorded, and the bus is told of the new object.
    Named,
    /// No live display has the `wl_output` object that the name came for.
    Unknown,
    /// The display has a name already, and keeps it.
    AlreadyNamed,
    /// Another live display has the path that the name maps to: the display
    /// stays without a name, and without an object on the bus.
    PathTaken,
}

/// Two displays can live side by side: they differ in each identity, and if
/// both are named their paths on the bus differ.
pub open spec fn apart(a: OutputView, b: OutputView) -> bool {
    &&& a.reg_name != b.reg_name
    &&& a.wl != b.wl
    &&& a.gamma_control != b.gamma_control
    &&& a.path() is Some && b.path() is Some ==> a.path() != b.path()
}

/// What holds of the displays at all times: every colour lies in its domain,
/// and any two displays are apart.
pub open spec fn well_formed(displays: Seq<OutputView>) -> bool {
    &&& forall|i: int| 0 <= i < displays.len() ==> (#[trigger] displays[i]).color.valid()
    &&& forall|i: int, j: int|
        0 <= i < j < displays.len() ==> apart(#[trigger] displays[i], #[trigger] displays[j])
}

/// The sum of the temperatures of the displays.
pub open spec fn temperature_sum(displays: Seq<OutputView>) -> int
    decreases displays.len(),
{
    if displays.len() == 0 {
        0
    } else {
        temperature_sum(displays.drop_last()) + displays.last().color.temp
    }
}

/// Whether every display is inverted.
pub open spec fn all_inverted(displays: Seq<OutputView>) -> bool {
    forall|i: int| 0 <= i < displays.len() ==> (#[trigger] displays[i]).color.inverted
}

/// Whether the colour of any display waits to be published.
pub open spec fn any_changed(displays: Seq<OutputView>) -> bool {
    exists|i: int| 0 <= i < displays.len() && (#[trigger] displays[i]).color_changed
}

/// The colour that stands for all displays together: the default colour when
/// there is none; else the mean of the temperatures, rounded down, the two
/// means handed in for brightness and gamma, and inverted only if every
/// display is.
pub open spec fn aggregate(
    displays: Seq<OutputView>,
    mean_brightness: Binary64,
    mean_gamma: Binary64,
) -> Color {
    if displays.len() == 0 {
        Color::spec_default()
    } else {
        Color {
            temp: (temperature_sum(displays) / displays.len() as int) as u16,
            gamma: mean_gamma,
            brightness: mean_brightness,
            inverted: all_inverted(displays),
        }
    }
}

/// The displays after the one that the registry announced as `reg_name` went
/// through `change`.
pub open spec fn changed_one(displays: Seq<OutputView>, reg_name: u32, change: Change) -> Seq<
    OutputView,
> {
    displays.map_values(
        |o: OutputView|
            if o.reg_name == reg_name {
                o.with_color(change.spec_apply(o.color))
            } else {
                o
            },
    )
}

/// The displays after each went through `change`.
pub open spec fn changed_all(displays: Seq<OutputView>, change: Change) -> Seq<OutputView> {
    displays.map_values(|o: OutputView| o.with_color(change.spec_apply(o.color)))
}

/// The displays after each went through the change that stands at its place
/// in `changes`. A display for which there is none stays as it is.
pub open spec fn changed_each(displays: Seq<OutputView>, changes: Seq<Change>) -> Seq<OutputView> {
    Seq::new(
        displays.len(),
        |i: int|
            if i < changes.len() {
                displays[i].with_color(changes[i].spec_apply(displays[i].color))
            } else {
                displays[i]
            },
    )
}

/// The changes that move each brightness to the sum at its place.
pub open spec fn brightness_shifts(sums: Seq<Binary64>) -> Seq<Change> {
    sums.map_values(|sum: Binary64| Change::ShiftBrightness(sum))
}

/// The changes that move each gamma to the sum at its place.
pub open spec fn gamma_shifts(sums: Seq<Binary64>) -> Seq<Change> {
    sums.map_values(|sum: Binary64| Change::ShiftGamma(sum))
}

/// Whether a display with this registry name is live.
pub open spec fn has_reg_name(displays: Seq<OutputView>, reg_name: u32) -> bool {
    exists|i: int| 0 <= i < displays.len() && (#[trigger] displays[i]).reg_name == reg_name
}

/// Whether a live display has this `wl_output` object.
pub open spec fn has_wl(displays: Seq<OutputView>, wl: u32) -> bool {
    exists|i: int| 0 <= i < displays.len() && (#[trigger] displays[i]).wl == wl
}

/// Whether a live display has this gamma-control object.
pub open spec fn has_gamma_control(displays: Seq<OutputView>, gamma_control: u32) -> bool {
    exists|i: int| 0 <= i < displays.len() && (#[trigger] displays[i]).gamma_control == gamma_control
}

/// Whether a live display has this path on the bus.
pub open spec fn has_path(displays: Seq<OutputView>, path: Seq<char>) -> bool {
    exists|i: int| 0 <= i < displays.len() && (#[trigger] displays[i]).path() == Some(path)
}

/// Where the display with this registry name stands. Among well-formed
/// displays there is at most one.
pub open spec fn index_of_reg_name(displays: Seq<OutputView>, reg_name: u32) -> int {
    choose|i: int| 0 <= i < displays.len() && (#[trigger] displays[i]).reg_name == reg_name
}

/// Where the display with this `wl_output` object stands. Among well-formed
/// displays there is at most one.
pub open spec fn index_of_wl(displays: Seq<OutputView>, wl: u32) -> int {
    choose|i: int| 0 <= i < displays.len() && (#[trigger] displays[i]).wl == wl
}

/// Where the display with this gamma-control object stands. Among well-formed
/// displays there is at most one.
pub open spec fn index_of_gamma_control(displays: Seq<OutputView>, gamma_control: u32) -> int {
    choose|i: int| 0 <= i < displays.len() && (#[trigger] displays[i]).gamma_control == gamma_control
}

/// The ramp that is to be published for a display.
pub open spec fn publication_of(display: OutputView) -> Publication {
    Publication {
        reg_name: display.reg_name,
        gamma_control: display.gamma_control,
        ramp_size: display.ramp_size,
        color: display.color,
    }
}

/// The ramps that are to be published: one for each display whose colour
/// waits to be published and whose ramp size is known, in the order of the
/// displays.
pub open spec fn publications_of(displays: Seq<OutputView>) -> Seq<Publication>
    decreases displays.len(),
{
    if displays.len() == 0 {
        Seq::empty()
    } else if displays.last().publishable() {
        publications_of(displays.drop_last()).push(publication_of(displays.last()))
    } else {
        publications_of(displays.drop_last())
    }
}

/// The displays without the one at `index`: the last display takes its place.
pub open spec fn without(displays: Seq<OutputView>, index: int) -> Seq<OutputView> {
    displays.update(index, displays.last()).drop_last()
}

/// The queue after a display left: if it had a name, the bus is told to drop
/// its object.
pub open spec fn queue_after_removal(queue: Seq<EventView>, gone: OutputView) -> Seq<EventView> {
    match gone.name {
        Some(name) => queue.push(EventView::RemoveOutput { name }),
        None => queue,
    }
}

/// The displays after the one with this gamma-control object was granted a
/// ramp size: the size is recorded, and the colour waits to be published with
/// it.
pub open spec fn granted(displays: Seq<OutputView>, gamma_control: u32, ramp_size: u32) -> Seq<
    OutputView,
> {
    displays.map_values(
        |o: OutputView|
            if o.gamma_control == gamma_control {
                OutputView { ramp_size, color_changed: true, ..o }
            } else {
                o
            },
    )
}

/// The displays after a ramp was published for the one with this registry
/// name: its colour no longer waits.
pub open spec fn displayed(displays: Seq<OutputView>, reg_name: u32) -> Seq<OutputView> {
    displays.map_values(
        |o: OutputView|
            if o.reg_name == reg_name {
                OutputView { color_changed: false, ..o }
            } else {
                o
            },
    )
}

/// The displays and the events that wait for the bus.
pub struct WaylandState {
    outputs: Vec<Output>,
    events: VecDeque<WaylandEvent>,
}

impl WaylandState {
    /// The displays, in the order in which aggregates walk them.
    pub closed spec fn displays(&self) -> Seq<OutputView> {
        self.outputs@.map_values(|o: Output| o@)
    }

    /// The events that wait for the bus, oldest first.
    pub closed spec fn queued(&self) -> Seq<EventView> {
        self.events@.map_values(|e: WaylandEvent| e@)
    }

    /// The displays are well formed.
    pub open spec fn wf(&self) -> bool {
        well_formed(self.displays())
    }

    /// No display, no event.
    pub fn new() -> (r: WaylandState)
        ensures
            r.displays() == Seq::<OutputView>::empty(),
            r.queued() == Seq::<EventView>::empty(),
            r.wf(),
    {
        let r = WaylandState { outputs: Vec::new(), events: VecDeque::new() };
        assert(r.displays() =~= Seq::<OutputView>::empty());
        assert(r.queued() =~= Seq::<EventView>::empty());
        r
    }

    /// The displays.
    pub fn outputs(&self) -> (r: &Vec<Output>)
        ensures
            r@.map_values(|o: Output| o@) == self.displays(),
    {
        &self.outputs
    }

    /// The display that the registry announced as `reg_name`.
    pub fn output_by_reg_name(&self, reg_name: u32) -> (r: Option<&Output>)
        ensures
            match r {
                Some(output) => exists|i: int|
                    0 <= i < self.displays().len() && self.displays()[i] == output@
                        && output@.reg_name == reg_name && forall|j: int|
                        0 <= j < i ==> (#[trigger] self.displays()[j]).reg_name != reg_name,
                None => forall|i: int|
                    0 <= i < self.displays().len() ==> (#[trigger] self.displays()[i]).reg_name
                        != reg_name,
            },
    {
        let mut i: usize = 0;
        while i < self.outputs.len()
            invariant
                i <= self.outputs.len(),
                forall|j: int| 0 <= j < i ==> (#[trigger] self.displays()[j]).reg_name != reg_name,
            decreases self.outputs.len() - i,
        {
            if self.outputs[i].reg_name() == reg_name {
                assert(self.displays()[i as int] == self.outputs[i as int]@);
                return Some(&self.outputs[i]);
            }
            i += 1;
        }
        None
    }

    /// Returns the average colour of all displays, or the default colour if
    /// there are none. Temperature and inversion are computed here; the means
    /// of brightness and gamma are the caller's, who can add and divide
    /// binary64 numbers.
    pub fn color(&self, mean_brightness: Binary64, mean_gamma: Binary64) -> (r: Color)
        ensures
            r == aggregate(self.displays(), mean_brightness, mean_gamma),
    {
        let n: usize = self.outputs.len();
        if n == 0 {
            return Color::default();
        }
        let mut sum: u128 = 0;
        let mut inverted = true;
        let mut i: usize = 0;
        while i < n
            invariant
                i <= n,
                n == self.outputs.len(),
                sum == temperature_sum(self.displays().take(i as int)),
                sum <= 65535 * i,
                inverted == all_inverted(self.displays().take(i as int)),
            decreases n - i,
        {
            let color = self.outputs[i].color();
            proof {
                let next = self.displays().take(i + 1);
                assert(next.drop_last() == self.displays().take(i as int));
            }
            sum = sum + color.temp as u128;
            inverted = inverted && color.inverted;
            i += 1;
        }
        proof {
            assert(self.displays().take(n as int) == self.displays());
        }
        let mean: u128 = sum / (n as u128);
        Color { temp: mean as u16, gamma: mean_gamma, brightness: mean_brightness, inverted }
    }

    /// Whether the colour of any display waits to be published.
    pub fn color_changed(&self) -> (r: bool)
        ensures
            r == any_changed(self.displays()),
    {
        let mut i: usize = 0;
        while i < self.outputs.len()
            invariant
                i <= self.outputs.len(),
                forall|j: int| 0 <= j < i ==> !(#[trigger] self.displays()[j]).color_changed,
            decreases self.outputs.len() - i,
        {
            if self.outputs[i].color_changed() {
                assert(self.displays()[i as int].color_changed);
                return true;
            }
            i += 1;
        }
        false
    }

    /// Sets the inversion of every display.
    pub fn set_inverted(&mut self, inverted: bool)
        requires
            old(self).wf(),
        ensures
            final(self).displays() == changed_all(
                old(self).displays(),
                Change::Assign(Value::Inverted(inverted)),
            ),
            final(self).queued() == old(self).queued(),
            final(self).wf(),
    {
        self.change_all(Change::Assign(Value::Inverted(inverted)));
    }

    /// Sets the brightness of every display. A brightness outside `[0, 1]` is
    /// not taken.
    pub fn set_brightness(&mut self, brightness: Binary64)
        requires
            old(self).wf(),
        ensures
            final(self).displays() == changed_all(
                old(self).displays(),
                Change::Assign(Value::Brightness(brightness)),
            ),
            final(self).queued() == old(self).queued(),
            final(self).wf(),
    {
        self.change_all(Change::Assign(Value::Brightness(brightness)));
    }

    /// Moves the brightness of each display to the sum at its place in `sums`,
    /// which the caller made of that brightness and a delta, and brings it
    /// back into `[0, 1]`. Returns `true` if any display was updated.
    pub fn update_brightness(&mut self, sums: &Vec<Binary64>) -> (updated: bool)
        requires
            old(self).wf(),
        ensures
            final(self).displays() == changed_each(old(self).displays(), brightness_shifts(sums@)),
            final(self).queued() == old(self).queued(),
            final(self).wf(),
            updated == (final(self).displays() != old(self).displays()),
    {
        let mut changes: Vec<Change> = Vec::new();
        let mut i: usize = 0;
        while i < sums.len()
            invariant
                i <= sums.len(),
                changes@ == brightness_shifts(sums@.take(i as int)),
            decreases sums.len() - i,
        {
            changes.push(Change::ShiftBrightness(sums[i]));
            assert(changes@ =~= brightness_shifts(sums@.take(i + 1)));
            i += 1;
        }
        assert(sums@.take(sums.len() as int) == sums@);
        self.change_each(&changes)
    }

    /// Sets the temperature of every display. A temperature outside
    /// `[1000, 10000]` is not taken.
    pub fn set_temperature(&mut self, temp: u16)
        requires
            old(self).wf(),
        ensures
            final(self).displays() == changed_all(
                old(self).displays(),
                Change::Assign(Value::Temperature(temp)),
            ),
            final(self).queued() == old(self).queued(),
            final(self).wf(),
    {
        self.change_all(Change::Assign(Value::Temperature(temp)));
    }

    /// Moves the temperature of every display by `delta` and brings it back
    /// into `[1000, 10000]`. Returns `true` if any display was updated.
    pub fn update_temperature(&mut self, delta: i16) -> (updated: bool)
        requires
            old(self).wf(),
        ensures
            final(self).displays() == changed_all(
                old(self).displays(),
                Change::ShiftTemperature(delta),
            ),
            final(self).queued() == old(self).queued(),
            final(self).wf(),
            updated == (final(self).displays() != old(self).displays()),
    {
        self.change_all(Change::ShiftTemperature(delta))
    }

    /// Sets the gamma of every display. A gamma below `0.1` is not taken.
    pub fn set_gamma(&mut self, gamma: Binary64)
        requires
            old(self).wf(),
        ensures
            final(self).displays() == changed_all(
                old(self).displays(),
                Change::Assign(Value::Gamma(gamma)),
            ),
            final(self).queued() == old(self).queued(),
            final(self).wf(),
    {
        self.change_all(Change::Assign(Value::Gamma(gamma)));
    }

    /// Moves the gamma of each display to the sum at its place in `sums`,
    /// which the caller made of that gamma and a delta, but not below `0.1`.
    /// Returns `true` if any display was updated.
    pub fn update_gamma(&mut self, sums: &Vec<Binary64>) -> (updated: bool)
        requires
            old(self).wf(),
        ensures
            final(self).displays() == changed_each(old(self).displays(), gamma_shifts(sums@)),
            final(self).queued() == old(self).queued(),
            final(self).wf(),
            updated == (final(self).displays() != old(self).displays()),
    {
        let mut changes: Vec<Change> = Vec::new();
        let mut i: usize = 0;
        while i < sums.len()
            invariant
                i <= sums.len(),
                changes@ == gamma_shifts(sums@.take(i as int)),
            decreases sums.len() - i,
        {
            changes.push(Change::ShiftGamma(sums[i]));
            assert(changes@ =~= gamma_shifts(sums@.take(i + 1)));
            i += 1;
        }
        assert(sums@.take(sums.len() as int) == sums@);
        self.change_each(&changes)
    }

    fn find_reg_name(&self, reg_name: u32) -> (r: Option<usize>)
        ensures
            match r {
                Some(i) => i < self.displays().len() && self.displays()[i as int].reg_name
                    == reg_name && i < self.outputs.len(),
                None => !has_reg_name(self.displays(), reg_name),
            },
    {
        let mut i: usize = 0;
        while i < self.outputs.len()
            invariant
                i <= self.outputs.len(),
                forall|j: int| 0 <= j < i ==> (#[trigger] self.displays()[j]).reg_name != reg_name,
            decreases self.outputs.len() - i,
        {
            assert(self.displays()[i as int] == self.outputs[i as int]@);
            if self.outputs[i].reg_name() == reg_name {
                return Some(i);
            }
            i += 1;
        }
        None
    }

    fn find_wl(&self, wl: u32) -> (r: Option<usize>)
        ensures
            match r {
                Some(i) => i < self.displays().len() && self.displays()[i as int].wl == wl && i
                    < self.outputs.len(),
                None => !has_wl(self.displays(), wl),
            },
    {
        let mut i: usize = 0;
        while i < self.outputs.len()
            invariant
                i <= self.outputs.len(),
                forall|j: int| 0 <= j < i ==> (#[trigger] self.displays()[j]).wl != wl,
            decreases self.outputs.len() - i,
        {
            assert(self.displays()[i as int] == self.outputs[i as int]@);
            if self.outputs[i].wl() == wl {
                return Some(i);
            }
            i += 1;
        }
        None
    }

    fn find_gamma_control(&self, gamma_control: u32) -> (r: Option<usize>)
        ensures
            match r {
                Some(i) => i < self.displays().len() && self.displays()[i as int].gamma_control
                    == gamma_control && i < self.outputs.len(),
                None => !has_gamma_control(self.displays(), gamma_control),
            },
    {
        let mut i: usize = 0;
        while i < self.outputs.len()
            invariant
                i <= self.outputs.len(),
                forall|j: int|
                    0 <= j < i ==> (#[trigger] self.displays()[j]).gamma_control != gamma_control,
            decreases self.outputs.len() - i,
        {
            assert(self.displays()[i as int] == self.outputs[i as int]@);
            if self.outputs[i].gamma_control() == gamma_control {
                return Some(i);
            }
            i += 1;
        }
        None
    }

    fn find_path(&self, path: &String) -> (r: bool)
        ensures
            r == has_path(self.displays(), path@),
    {
        let mut i: usize = 0;
        while i < self.outputs.len()
            invariant
                i <= self.outputs.len(),
                forall|j: int| 0 <= j < i ==> (#[trigger] self.displays()[j]).path() != Some(path@),
            decreases self.outputs.len() - i,
        {
            assert(self.displays()[i as int] == self.outputs[i as int]@);
            match self.outputs[i].object_path() {
                Some(taken) => {
                    if taken == *path {
                        return true;
                    }
                },
                None => {},
            }
            i += 1;
        }
        false
    }

    fn remove_at(&mut self, i: usize) -> (r: Removed)
        requires
            old(self).wf(),
            i < old(self).displays().len(),
        ensures
            final(self).displays() == without(old(self).displays(), i as int),
            final(self).queued() == queue_after_removal(
                old(self).queued(),
                old(self).displays()[i as int],
            ),
            final(self).wf(),
            r.reg_name == old(self).displays()[i as int].reg_name,
            r.wl == old(self).displays()[i as int].wl,
            r.gamma_control == old(self).displays()[i as int].gamma_control,
    {
        let ghost before = self.displays();
        let ghost queue = self.queued();
        let output = self.outputs.swap_remove(i);
        assert(output@ == before[i as int]);
        assert(self.displays() =~= without(before, i as int));
        let removed = Removed {
            reg_name: output.reg_name(),
            wl: output.wl(),
            gamma_control: output.gamma_control(),
        };
        match output.into_name() {
            Some(name) => {
                self.events.push_back(WaylandEvent::RemoveOutput { name });
                assert(self.queued() =~= queue.push(EventView::RemoveOutput { name: name@ }));
            },
            None => {},
        }
        removed
    }

    /// The registry announced a display: it joins the set, showing `color`
    /// if that lies in the domain and the default colour if not. Nothing is
    /// bound if any of the three identities belongs to a live display.
    pub fn global(&mut self, reg_name: u32, wl: u32, gamma_control: u32, color: Color) -> (bound:
        bool)
        requires
            old(self).wf(),
        ensures
            final(self).wf(),
            final(self).queued() == old(self).queued(),
            bound == !(has_reg_name(old(self).displays(), reg_name) || has_wl(
                old(self).displays(),
                wl,
            ) || has_gamma_control(old(self).displays(), gamma_control)),
            bound ==> final(self).displays() == old(self).displays().push(
                OutputView::bound(reg_name, wl, gamma_control).with_color(color),
            ),
            !bound ==> final(self).displays() == old(self).displays(),
    {
        if self.find_reg_name(reg_name).is_some() || self.find_wl(wl).is_some()
            || self.find_gamma_control(gamma_control).is_some() {
            return false;
        }
        let ghost before = self.displays();
        let mut output = Output::bind(reg_name, wl, gamma_control);
        output.set_color(color);
        self.outputs.push(output);
        proof {
            let after = self.displays();
            assert forall|i: int, j: int| 0 <= i < j < after.len() implies apart(
                #[trigger] after[i],
                #[trigger] after[j],
            ) by {
                if j < before.len() {
                    assert(apart(before[i], before[j]));
                } else {
                    assert(before[i].reg_name != reg_name);
                    assert(before[i].wl != wl);
                    assert(before[i].gamma_control != gamma_control);
                }
            }
            assert forall|i: int| 0 <= i < after.len() implies (#[trigger] after[i]).color.valid() by {
                if i < before.len() {
                    assert(before[i].color.valid());
                }
            }
        }
        true
    }

    /// The registry withdrew `reg_name`: the display leaves the set, and if it
    /// had a name the bus is told to drop its object. Returns the identities
    /// of the display, or `None` if there is no such display.
    pub fn global_remove(&mut self, reg_name: u32) -> (r: Option<Removed>)
        requires
            old(self).wf(),
        ensures
            final(self).wf(),
            r is Some == has_reg_name(old(self).displays(), reg_name),
            match r {
                Some(removed) => {
                    let i = index_of_reg_name(old(self).displays(), reg_name);
                    &&& removed.reg_name == reg_name
                    &&& removed.wl == old(self).displays()[i].wl
                    &&& removed.gamma_control == old(self).displays()[i].gamma_control
                    &&& final(self).displays() == without(old(self).displays(), i)
                    &&& final(self).queued() == queue_after_removal(
                        old(self).queued(),
                        old(self).displays()[i],
                    )
                },
                None => final(self).displays() == old(self).displays() && final(self).queued()
                    == old(self).queued(),
            },
    {
        match self.find_reg_name(reg_name) {
            Some(i) => {
                Some(self.remove_at(i))
            },
            None => None,
        }
    }

    /// The compositor reported that gamma control failed for the display with
    /// this gamma-control object: the display leaves the set as on
    /// [`WaylandState::global_remove`].
    pub fn gamma_failed(&mut self, gamma_control: u32) -> (r: Option<Removed>)
        requires
            old(self).wf(),
        ensures
            final(self).wf(),
            r is Some == has_gamma_control(old(self).displays(), gamma_control),
            match r {
                Some(removed) => {
                    let i = index_of_gamma_control(old(self).displays(), gamma_control);
                    &&& removed.reg_name == old(self).displays()[i].reg_name
                    &&& removed.wl == old(self).displays()[i].wl
                    &&& removed.gamma_control == gamma_control
                    &&& final(self).displays() == without(old(self).displays(), i)
                    &&& final(self).queued() == queue_after_removal(
                        old(self).queued(),
                        old(self).displays()[i],
                    )
                },
                None => final(self).displays() == old(self).displays() && final(self).queued()
                    == old(self).queued(),
            },
    {
        match self.find_gamma_control(gamma_control) {
            Some(i) => {
                Some(self.remove_at(i))
            },
            None => None,
        }
    }

    /// The compositor granted a ramp size to the display with this
    /// gamma-control object. Says whether there is such a display.
    pub fn gamma_size(&mut self, gamma_control: u32, ramp_size: u32) -> (known: bool)
        requires
            old(self).wf(),
        ensures
            final(self).wf(),
            final(self).displays() == granted(old(self).displays(), gamma_control, ramp_size),
            final(self).queued() == old(self).queued(),
            known == has_gamma_control(old(self).displays(), gamma_control),
    {
        let mut known = false;
        let mut i: usize = 0;
        while i < self.outputs.len()
            invariant
                i <= self.outputs.len(),
                self.displays().len() == old(self).displays().len(),
                self.queued() == old(self).queued(),
                forall|k: int|
                    0 <= k < i ==> self.displays()[k] == #[trigger] granted(
                        old(self).displays(),
                        gamma_control,
                        ramp_size,
                    )[k],
                forall|k: int|
                    i <= k < self.displays().len() ==> #[trigger] self.displays()[k] == old(self).displays()[k],
                known == exists|k: int|
                    0 <= k < i && (#[trigger] old(self).displays()[k]).gamma_control
                        == gamma_control,
            decreases self.outputs.len() - i,
        {
            assert(self.displays()[i as int] == self.outputs[i as int]@);
            if self.outputs[i].gamma_control() == gamma_control {
                known = true;
                let ghost before = self.displays();
                self.outputs[i].set_ramp_size(ramp_size);
                assert(self.displays() =~= before.update(
                    i as int,
                    OutputView { ramp_size, color_changed: true, ..before[i as int] },
                ));
                assert(old(self).displays()[i as int].gamma_control == gamma_control);
            }
            i += 1;
        }
        proof {
            let before = old(self).displays();
            let after = granted(before, gamma_control, ramp_size);
            assert(self.displays() =~= after);
        }
        known
    }

    /// A ramp was published for the display that the registry announced as
    /// `reg_name`: its colour no longer waits. Says whether there is such a
    /// display.
    pub fn set_displayed(&mut self, reg_name: u32) -> (known: bool)
        requires
            old(self).wf(),
        ensures
            final(self).wf(),
            final(self).displays() == displayed(old(self).displays(), reg_name),
            final(self).queued() == old(self).queued(),
            known == has_reg_name(old(self).displays(), reg_name),
    {
        let mut known = false;
        let mut i: usize = 0;
        while i < self.outputs.len()
            invariant
                i <= self.outputs.len(),
                self.displays().len() == old(self).displays().len(),
                self.queued() == old(self).queued(),
                forall|k: int|
                    0 <= k < i ==> self.displays()[k] == #[trigger] displayed(
                        old(self).displays(),
                        reg_name,
                    )[k],
                forall|k: int|
                    i <= k < self.displays().len() ==> #[trigger] self.displays()[k] == old(self).displays()[k],
                known == exists|k: int|
                    0 <= k < i && (#[trigger] old(self).displays()[k]).reg_name == reg_name,
            decreases self.outputs.len() - i,
        {
            assert(self.displays()[i as int] == self.outputs[i as int]@);
            if self.outputs[i].reg_name() == reg_name {
                known = true;
                let ghost before = self.displays();
                self.outputs[i].set_displayed();
                assert(self.displays() =~= before.update(
                    i as int,
                    OutputView { color_changed: false, ..before[i as int] },
                ));
                assert(old(self).displays()[i as int].reg_name == reg_name);
            }
            i += 1;
        }
        proof {
            let before = old(self).displays();
            let after = displayed(before, reg_name);
            assert(self.displays() =~= after);
            assert forall|i: int, j: int| 0 <= i < j < after.len() implies apart(
                #[trigger] after[i],
                #[trigger] after[j],
            ) by {
                assert(apart(before[i], before[j]));
            }
            assert forall|i: int| 0 <= i < after.len() implies (#[trigger] after[i]).color.valid() by {
                assert(before[i].color.valid());
            }
        }
        known
    }

    /// The compositor sent `name` for the display with this `wl_output`
    /// object. The name is recorded, and the bus told of the new object, if
    /// the display has no name yet and no live display has the path that the
    /// name maps to.
    pub fn output_name(&mut self, wl: u32, name: String) -> (r: Naming)
        requires
            old(self).wf(),
        ensures
            final(self).wf(),
            (r is Unknown) == !has_wl(old(self).displays(), wl),
            !(r is Unknown) ==> {
                let i = index_of_wl(old(self).displays(), wl);
                let display = old(self).displays()[i];
                &&& (r is AlreadyNamed) == display.name is Some
                &&& (r is PathTaken) == (display.name is None && has_path(
                    old(self).displays(),
                    object_path_of(name@),
                ))
                &&& r is Named ==> final(self).displays() == old(self).displays().update(
                    i,
                    OutputView { name: Some(name@), ..display },
                ) && final(self).queued() == old(self).queued().push(
                    EventView::NewOutput { reg_name: display.reg_name, name: name@ },
                )
            },
            !(r is Named) ==> final(self).displays() == old(self).displays() && final(self).queued() == old(self).queued(),
    {
        let i = match self.find_wl(wl) {
            Some(i) => i,
            None => {
                return Naming::Unknown;
            },
        };
        assert(self.displays()[i as int] == self.outputs[i as int]@);
        if self.outputs[i].name().is_some() {
            return Naming::AlreadyNamed;
        }
        let path = object_path(name.as_str());
        if self.find_path(&path) {
            return Naming::PathTaken;
        }
        let ghost before = self.displays();
        let reg_name = self.outputs[i].reg_name();
        self.outputs[i].set_name(name.clone());
        self.events.push_back(WaylandEvent::NewOutput { reg_name, name });
        proof {
            let after = self.displays();
            assert forall|a: int, b: int| 0 <= a < b < after.len() implies apart(
                #[trigger] after[a],
                #[trigger] after[b],
            ) by {
                assert(apart(before[a], before[b]));
                if a == i {
                    assert(before[b].path() != Some(object_path_of(name@)));
                }
                if b == i {
                    assert(before[a].path() != Some(object_path_of(name@)));
                }
            }
            assert forall|a: int| 0 <= a < after.len() implies (#[trigger] after[a]).color.valid() by {
                assert(before[a].color.valid());
            }
        }
        Naming::Named
    }

    /// Takes the oldest event from the queue.
    pub fn next_event(&mut self) -> (r: Option<WaylandEvent>)
        ensures
            final(self).displays() == old(self).displays(),
            match r {
                Some(event) => old(self).queued().len() > 0 && event@ == old(self).queued()[0]
                    && final(self).queued() == old(self).queued().skip(1),
                None => old(self).queued().len() == 0 && final(self).queued() == old(self).queued(),
            },
    {
        self.events.pop_front()
    }

    /// The ramps that are to be published now.
    pub fn publications(&self) -> (r: Vec<Publication>)
        ensures
            r@ == publications_of(self.displays()),
    {
        let mut out: Vec<Publication> = Vec::new();
        let mut i: usize = 0;
        while i < self.outputs.len()
            invariant
                i <= self.outputs.len(),
                out@ == publications_of(self.displays().take(i as int)),
            decreases self.outputs.len() - i,
        {
            let output = &self.outputs[i];
            proof {
                let next = self.displays().take(i + 1);
                assert(next.drop_last() == self.displays().take(i as int));
            }
            if output.color_changed() && output.ramp_size() > 0 {
                out.push(
                    Publication {
                        reg_name: output.reg_name(),
                        gamma_control: output.gamma_control(),
                        ramp_size: output.ramp_size(),
                        color: output.color(),
                    },
                );
            }
            i += 1;
        }
        assert(self.displays().take(self.outputs.len() as int) == self.displays());
        out
    }

    fn change_at(&mut self, i: usize, change: Change) -> (changed: bool)
        requires
            i < old(self).displays().len(),
        ensures
            final(self).displays() == old(self).displays().update(
                i as int,
                old(self).displays()[i as int].with_color(
                    change.spec_apply(old(self).displays()[i as int].color),
                ),
            ),
            final(self).queued() == old(self).queued(),
            final(self).outputs.len() == old(self).outputs.len(),
            changed == (final(self).displays()[i as int] != old(self).displays()[i as int]),
    {
        let ghost before = self.displays();
        let color = self.outputs[i].color();
        let next = change.apply(color);
        self.outputs[i].set_color(next);
        assert(self.displays() =~= before.update(
            i as int,
            before[i as int].with_color(change.spec_apply(before[i as int].color)),
        ));
        next.is_valid() && !next.same(color)
    }

    /// Puts the display that the registry announced as `reg_name` through
    /// `change`, and says whether there is such a display.
    pub fn change_one(&mut self, reg_name: u32, change: Change) -> (found: bool)
        requires
            old(self).wf(),
        ensures
            final(self).displays() == changed_one(old(self).displays(), reg_name, change),
            final(self).queued() == old(self).queued(),
            final(self).wf(),
            found == has_reg_name(old(self).displays(), reg_name),
    {
        let mut found = false;
        let mut i: usize = 0;
        while i < self.outputs.len()
            invariant
                i <= self.outputs.len(),
                self.displays().len() == old(self).displays().len(),
                self.queued() == old(self).queued(),
                forall|k: int|
                    0 <= k < i ==> self.displays()[k] == #[trigger] changed_one(
                        old(self).displays(),
                        reg_name,
                        change,
                    )[k],
                forall|k: int|
                    i <= k < self.displays().len() ==> #[trigger] self.displays()[k] == old(self).displays()[k],
                found == exists|k: int|
                    0 <= k < i && (#[trigger] old(self).displays()[k]).reg_name == reg_name,
            decreases self.outputs.len() - i,
        {
            assert(self.displays()[i as int] == self.outputs[i as int]@);
            if self.outputs[i].reg_name() == reg_name {
                found = true;
                self.change_at(i, change);
                assert(old(self).displays()[i as int].reg_name == reg_name);
            }
            i += 1;
        }
        proof {
            assert(self.displays() =~= changed_one(old(self).displays(), reg_name, change));
        }
        found
    }

    /// Puts every display through `change`, and says whether that changed any.
    pub fn change_all(&mut self, change: Change) -> (changed: bool)
        requires
            old(self).wf(),
        ensures
            final(self).displays() == changed_all(old(self).displays(), change),
            final(self).queued() == old(self).queued(),
            final(self).wf(),
            changed == (final(self).displays() != old(self).displays()),
    {
        let mut changed = false;
        let mut i: usize = 0;
        while i < self.outputs.len()
            invariant
                i <= self.outputs.len(),
                self.displays().len() == old(self).displays().len(),
                self.queued() == old(self).queued(),
                forall|k: int|
                    0 <= k < i ==> self.displays()[k] == #[trigger] changed_all(
                        old(self).displays(),
                        change,
                    )[k],
                forall|k: int|
                    i <= k < self.displays().len() ==> #[trigger] self.displays()[k] == old(self).displays()[k],
                changed == exists|k: int|
                    0 <= k < i && #[trigger] self.displays()[k] != old(self).displays()[k],
            decreases self.outputs.len() - i,
        {
            let ghost before = self.displays();
            let ghost before_changed = changed;
            let one = self.change_at(i, change);
            changed = changed || one;
            proof {
                if before_changed {
                    let k = choose|k: int|
                        0 <= k < i && #[trigger] before[k] != old(self).displays()[k];
                    assert(self.displays()[k] != old(self).displays()[k]);
                }
            }
            i += 1;
        }
        proof {
            assert(self.displays() =~= changed_all(old(self).displays(), change));
            if !changed {
                assert(self.displays() =~= old(self).displays());
            }
        }
        changed
    }

    /// Puts each display through the change at its place in `changes`, and
    /// says whether that changed any. A display for which `changes` holds
    /// nothing stays as it is.
    pub fn change_each(&mut self, changes: &Vec<Change>) -> (changed: bool)
        requires
            old(self).wf(),
        ensures
            final(self).displays() == changed_each(old(self).displays(), changes@),
            final(self).queued() == old(self).queued(),
            final(self).wf(),
            changed == (final(self).displays() != old(self).displays()),
    {
        let mut changed = false;
        let mut i: usize = 0;
        while i < self.outputs.len() && i < changes.len()
            invariant
                i <= self.outputs.len(),
                i <= changes.len(),
                self.displays().len() == old(self).displays().len(),
                self.queued() == old(self).queued(),
                forall|k: int|
                    0 <= k < i ==> self.displays()[k] == #[trigger] changed_each(
                        old(self).displays(),
                        changes@,
                    )[k],
                forall|k: int|
                    i <= k < self.displays().len() ==> #[trigger] self.displays()[k] == old(self).displays()[k],
                changed == exists|k: int|
                    0 <= k < i && #[trigger] self.displays()[k] != old(self).displays()[k],
            decreases self.outputs.len() - i,
        {
            let ghost before = self.displays();
            let ghost before_changed = changed;
            let one = self.change_at(i, changes[i]);
            changed = changed || one;
            proof {
                if before_changed {
                    let k = choose|k: int|
                        0 <= k < i && #[trigger] before[k] != old(self).displays()[k];
                    assert(self.displays()[k] != old(self).displays()[k]);
                }
                if one {
                    assert(self.displays()[i as int] != old(self).displays()[i as int]);
                }
                if !before_changed && !one {
                    assert forall|k: int| 0 <= k < i + 1 implies #[trigger] self.displays()[k] == old(self).displays()[k] by {
                        if k < i {
                            assert(before[k] == old(self).displays()[k]);
                        }
                    }
                }
            }
            i += 1;
        }
        proof {
            if !changed {
                assert(self.displays() =~= old(self).displays());
            }
        }
        changed
    }
}

/// The sum of the temperatures lies between the sums that the least and the
/// greatest temperature would give.
pub proof fn lemma_temperature_sum_bounds(displays: Seq<OutputView>, low: int, high: int)
    requires
        forall|i: int| 0 <= i < displays.len() ==> low <= (#[trigger] displays[i]).color.temp <= high,
    ensures
        low * displays.len() <= temperature_sum(displays) <= high * displays.len(),
    decreases displays.len(),
{
    if displays.len() > 0 {
        let front = displays.drop_last();
        assert forall|i: int| 0 <= i < front.len() implies low <= (#[trigger] front[i]).color.temp
            <= high by {
            assert(front[i] == displays[i]);
        }
        lemma_temperature_sum_bounds(front, low, high);
        assert(low * displays.len() == low * front.len() + low) by (nonlinear_arith)
            requires
                displays.len() == front.len() + 1,
        ;
        assert(high * displays.len() == high * front.len() + high) by (nonlinear_arith)
            requires
                displays.len() == front.len() + 1,
        ;
    }
}

/// The temperature of the aggregate is the sum of the temperatures divided by
/// the number of displays, rounded down; and where every display has a
/// temperature of the domain, so has the aggregate.
pub proof fn lemma_aggregate_temperature(
    displays: Seq<OutputView>,
    mean_brightness: Binary64,
    mean_gamma: Binary64,
)
    requires
        displays.len() > 0,
    ensures
        aggregate(displays, mean_brightness, mean_gamma).temp == temperature_sum(displays)
            / displays.len() as int,
        well_formed(displays) ==> valid_temperature(
            aggregate(displays, mean_brightness, mean_gamma).temp,
        ),
{
    let n = displays.len() as int;
    let sum = temperature_sum(displays);
    lemma_temperature_sum_bounds(displays, 0, 65535);
    assert(0 <= sum / n <= 65535) by (nonlinear_arith)
        requires
            0 <= sum <= 65535 * n,
            n > 0,
    ;
    if well_formed(displays) {
        assert forall|i: int| 0 <= i < displays.len() implies 1000 <= (
        #[trigger] displays[i]).color.temp <= 10000 by {
            assert(displays[i].color.valid());
        }
        lemma_temperature_sum_bounds(displays, 1000, 10000);
        assert(1000 <= sum / n <= 10000) by (nonlinear_arith)
            requires
                1000 * n <= sum <= 10000 * n,
                n > 0,
        ;
    }
}

} // verus!
