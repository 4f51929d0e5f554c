//! `PropertiesChanged`: which paths announce a new value after a call.
//!
//! The caller records the colours before the call, makes the call, and asks
//! which signals follow. A path gets a signal when its value of the property
//! is no longer what it was: the path of a named display for the display's
//! own colour, and `/` for the aggregate.

use crate::binary64::Binary64;
use crate::color::Color;
use crate::output::OutputView;
use crate::property::{Property, Value};
use crate::state::{aggregate, apart, has_path, well_formed, WaylandState};
use crate::text::object_path_of;
use vstd::prelude::*;
use vstd::string::StringExecFns;

verus! {

/// One `PropertiesChanged` of the interface `rs.wl.gammarelay`: on `path`, the
/// property that `value` belongs to has become `value`. No property is ever
/// announced as invalidated.
#[derive(Debug)]
pub struct Signal {
    pub path: String,
    pub value: Value,
}

/// A [`Signal`] as contracts see it.
pub struct SignalView {
    pub path: Seq<char>,
    pub value: Value,
}

impl View for Signal {
    type V = SignalView;

    open spec fn view(&self) -> SignalView {
        SignalView { path: self.path@, value: self.value }
    }
}

/// The colours as they were before a call.
pub struct Snapshot {
    root: Color,
    outputs: Vec<(u32, Color)>,
}

/// The path of the object that stands for all displays.
pub open spec fn root_path() -> Seq<char> {
    seq!['/']
}

/// Each display's registry name and colour.
pub open spec fn colors_of(displays: Seq<OutputView>) -> Seq<(u32, Color)> {
    displays.map_values(|o: OutputView| (o.reg_name, o.color))
}

/// The signal on `/`, if the aggregate's value of the property has changed.
pub open spec fn root_signal(before: Color, after: Color, property: Property) -> Seq<SignalView> {
    if before.spec_get(property).spec_same(after.spec_get(property)) {
        Seq::empty()
    } else {
        seq![SignalView { path: root_path(), value: after.spec_get(property) }]
    }
}

/// The signal on the path of the display that now stands at `at`, if it has a
/// path, stood there before under the same registry name, and its value of
/// the property has changed.
pub open spec fn display_signal(
    before: Seq<(u32, Color)>,
    at: int,
    display: OutputView,
    property: Property,
) -> Seq<SignalView> {
    if at < before.len() && before[at].0 == display.reg_name && display.name is Some
        && !before[at].1.spec_get(property).spec_same(display.color.spec_get(property)) {
        seq![
            SignalView {
                path: object_path_of(display.name->0),
                value: display.color.spec_get(property),
            },
        ]
    } else {
        Seq::empty()
    }
}

/// The signals on the paths of the displays, in the order of the displays.
pub open spec fn display_signals(
    before: Seq<(u32, Color)>,
    displays: Seq<OutputView>,
    property: Property,
) -> Seq<SignalView>
    decreases displays.len(),
{
    if displays.len() == 0 {
        Seq::empty()
    } else {
        display_signals(before, displays.drop_last(), property) + display_signal(
            before,
            displays.len() - 1,
            displays.last(),
            property,
        )
    }
}

/// All signals that follow a call. After a call at `/` the signal on `/`
/// comes first; after a call on a display's object it comes last.
pub open spec fn signals_of(
    at_root: bool,
    property: Property,
    root_before: Color,
    before: Seq<(u32, Color)>,
    root_after: Color,
    displays: Seq<OutputView>,
) -> Seq<SignalView> {
    if at_root {
        root_signal(root_before, root_after, property) + display_signals(
            before,
            displays,
            property,
        )
    } else {
        display_signals(before, displays, property) + root_signal(
            root_before,
            root_after,
            property,
        )
    }
}

/// The signals as contracts see them.
pub open spec fn signal_views(signals: Seq<Signal>) -> Seq<SignalView> {
    signals.map_values(|s: Signal| s@)
}

/// The name of the signal.
pub fn member() -> (r: &'static str)
    ensures
        r@ == "PropertiesChanged"@,
{
    "PropertiesChanged"
}

impl Snapshot {
    /// The aggregate colour at that time.
    pub closed spec fn root(&self) -> Color {
        self.root
    }

    /// Each display's registry name and colour at that time.
    pub closed spec fn colors(&self) -> Seq<(u32, Color)> {
        self.outputs@
    }

    /// Records the colours of `state`. The means of brightness and gamma over
    /// the displays are the caller's.
    pub fn take(state: &WaylandState, mean_brightness: Binary64, mean_gamma: Binary64) -> (r:
        Snapshot)
        ensures
            r.root() == aggregate(state.displays(), mean_brightness, mean_gamma),
            r.colors() == colors_of(state.displays()),
    {
        let root = state.color(mean_brightness, mean_gamma);
        let outputs = state.outputs();
        let mut colors: Vec<(u32, Color)> = Vec::new();
        let mut i: usize = 0;
        while i < outputs.len()
            invariant
                i <= outputs.len(),
                outputs@.map_values(|o: crate::output::Output| o@) == state.displays(),
                colors@ == colors_of(state.displays().take(i as int)),
            decreases outputs.len() - i,
        {
            assert(state.displays()[i as int] == outputs[i as int]@);
            colors.push((outputs[i].reg_name(), outputs[i].color()));
            assert(colors@ =~= colors_of(state.displays().take(i + 1)));
            i += 1;
        }
        assert(state.displays().take(outputs.len() as int) == state.displays());
        Snapshot { root, outputs: colors }
    }
}

fn root_signal_into(out: &mut Vec<Signal>, before: Color, after: Color, property: Property)
    ensures
        signal_views(final(out)@) == signal_views(old(out)@) + root_signal(before, after, property),
{
    let ghost start = signal_views(out@);
    if !before.get(property).same(after.get(property)) {
        proof {
            reveal_strlit("/");
        }
        let path = String::from_str("/");
        assert(path@ =~= root_path());
        out.push(Signal { path, value: after.get(property) });
        assert(signal_views(out@) =~= start + root_signal(before, after, property));
    } else {
        assert(signal_views(out@) =~= start + root_signal(before, after, property));
    }
}

/// The signals that follow a call about `property`, given the colours as they
/// were before it. `at_root` says whether the call was made at `/`. The means
/// of brightness and gamma over the displays as they are now are the caller's.
pub fn signals(
    state: &WaylandState,
    before: &Snapshot,
    at_root: bool,
    property: Property,
    mean_brightness: Binary64,
    mean_gamma: Binary64,
) -> (r: Vec<Signal>)
    ensures
        signal_views(r@) == signals_of(
            at_root,
            property,
            before.root(),
            before.colors(),
            aggregate(state.displays(), mean_brightness, mean_gamma),
            state.displays(),
        ),
{
    let after = state.color(mean_brightness, mean_gamma);
    let outputs = state.outputs();
    let mut out: Vec<Signal> = Vec::new();
    assert(signal_views(out@) =~= Seq::<SignalView>::empty());
    if at_root {
        root_signal_into(&mut out, before.root, after, property);
    }
    let ghost head = signal_views(out@);
    assert(head + Seq::<SignalView>::empty() =~= head);
    let mut i: usize = 0;
    while i < outputs.len()
        invariant
            i <= outputs.len(),
            outputs@.map_values(|o: crate::output::Output| o@) == state.displays(),
            signal_views(out@) == head + display_signals(
                before.colors(),
                state.displays().take(i as int),
                property,
            ),
        decreases outputs.len() - i,
    {
        let output = &outputs[i];
        let ghost so_far = signal_views(out@);
        proof {
            let next = state.displays().take(i + 1);
            assert(next.drop_last() == state.displays().take(i as int));
        }
        let value = output.color().get(property);
        if i < before.outputs.len() && before.outputs[i].0 == output.reg_name()
            && !before.outputs[i].1.get(property).same(value) {
            match output.object_path() {
                Some(path) => {
                    out.push(Signal { path, value });
                },
                None => {},
            }
        }
        proof {
            let one = display_signal(before.colors(), i as int, output@, property);
            assert(so_far + one =~= head + (display_signals(
                before.colors(),
                state.displays().take(i as int),
                property,
            ) + one));
        }
        i += 1;
    }
    assert(state.displays().take(outputs.len() as int) == state.displays());
    if !at_root {
        root_signal_into(&mut out, before.root, after, property);
    }
    out
}

/// Every signal on the path of a display names the path of a live display,
/// and no two of them name the same path.
pub proof fn lemma_display_signals_differ(
    before: Seq<(u32, Color)>,
    displays: Seq<OutputView>,
    property: Property,
)
    requires
        well_formed(displays),
    ensures
        forall|k: int|
            0 <= k < display_signals(before, displays, property).len() ==> has_path(
                displays,
                (#[trigger] display_signals(before, displays, property)[k]).path,
            ),
        forall|a: int, b: int|
            0 <= a < b < display_signals(before, displays, property).len() ==> (
            #[trigger] display_signals(before, displays, property)[a]).path != (
            #[trigger] display_signals(before, displays, property)[b]).path,
    decreases displays.len(),
{
    let all = display_signals(before, displays, property);
    if displays.len() > 0 {
        let front = displays.drop_last();
        let at = displays.len() - 1;
        let head = display_signals(before, front, property);
        let tail = display_signal(before, at, displays.last(), property);
        assert(well_formed(front)) by {
            assert forall|i: int, j: int| 0 <= i < j < front.len() implies apart(
                #[trigger] front[i],
                #[trigger] front[j],
            ) by {
                assert(apart(displays[i], displays[j]));
            }
            assert forall|i: int| 0 <= i < front.len() implies (#[trigger] front[i]).color.valid() by {
                assert(displays[i].color.valid());
            }
        }
        lemma_display_signals_differ(before, front, property);
        assert(all == head + tail);
        assert forall|k: int| 0 <= k < all.len() implies has_path(
            displays,
            (#[trigger] all[k]).path,
        ) by {
            if k < head.len() {
                assert(all[k] == head[k]);
                let m = choose|m: int|
                    0 <= m < front.len() && (#[trigger] front[m]).path() == Some(head[k].path);
                assert(displays[m].path() == Some(head[k].path));
            } else {
                assert(all[k] == tail[0]);
                assert(displays[at].path() == Some(all[k].path));
            }
        }
        assert forall|a: int, b: int| 0 <= a < b < all.len() implies (#[trigger] all[a]).path
            != (#[trigger] all[b]).path by {
            if b < head.len() {
                assert(all[a] == head[a]);
                assert(all[b] == head[b]);
            } else {
                assert(all[a] == head[a]);
                assert(all[b] == tail[0]);
                let m = choose|m: int|
                    0 <= m < front.len() && (#[trigger] front[m]).path() == Some(head[a].path);
                assert(apart(displays[m], displays[at]));
            }
        }
    }
}

/// Whether one of `signals` is on `path`.
pub open spec fn announces(signals: Seq<SignalView>, path: Seq<char>) -> bool {
    exists|k: int| 0 <= k < signals.len() && (#[trigger] signals[k]).path == path
}

/// Whether one of `signals` is on `path` and carries `value`.
pub open spec fn announces_value(signals: Seq<SignalView>, path: Seq<char>, value: Value) -> bool {
    exists|k: int|
        0 <= k < signals.len() && (#[trigger] signals[k]).path == path && signals[k].value == value
}

/// The path of a named display gets a signal exactly when the display's value
/// of the property is no longer what it was, and the signal carries the value
/// that the display has now.
pub proof fn lemma_display_signal_iff_changed(
    before: Seq<(u32, Color)>,
    displays: Seq<OutputView>,
    property: Property,
    i: int,
)
    requires
        well_formed(displays),
        0 <= i < displays.len(),
        displays[i].name is Some,
    ensures
        announces(display_signals(before, displays, property), displays[i].path()->0) == (i
            < before.len() && before[i].0 == displays[i].reg_name && !before[i].1.spec_get(
            property,
        ).spec_same(displays[i].color.spec_get(property))),
        announces(display_signals(before, displays, property), displays[i].path()->0)
            ==> announces_value(
            display_signals(before, displays, property),
            displays[i].path()->0,
            displays[i].color.spec_get(property),
        ),
    decreases displays.len(),
{
    let all = display_signals(before, displays, property);
    let front = displays.drop_last();
    let at = displays.len() - 1;
    let head = display_signals(before, front, property);
    let tail = display_signal(before, at, displays.last(), property);
    let path = displays[i].path()->0;
    lemma_display_signals_differ(before, front, property);
    if i == at {
        assert forall|k: int| 0 <= k < head.len() implies (#[trigger] head[k]).path != path by {
            let m = choose|m: int|
                0 <= m < front.len() && (#[trigger] front[m]).path() == Some(head[k].path);
            assert(apart(displays[m], displays[at]));
        }
        if tail.len() > 0 {
            assert(all[head.len() as int] == tail[0]);
        }
        if announces(all, path) {
            let k = choose|k: int| 0 <= k < all.len() && (#[trigger] all[k]).path == path;
            if k < head.len() {
                assert(all[k] == head[k]);
            } else {
                assert(all[k] == tail[0]);
            }
        }
    } else {
        assert(front[i] == displays[i]);
        lemma_display_signal_iff_changed(before, front, property, i);
        if tail.len() > 0 {
            assert(apart(displays[i], displays[at]));
        }
        if announces(head, path) {
            let k = choose|k: int| 0 <= k < head.len() && (#[trigger] head[k]).path == path;
            assert(all[k] == head[k]);
            let v = choose|v: int|
                0 <= v < head.len() && (#[trigger] head[v]).path == path && head[v].value
                    == displays[i].color.spec_get(property);
            assert(all[v] == head[v]);
        }
        if announces(all, path) {
            let k = choose|k: int| 0 <= k < all.len() && (#[trigger] all[k]).path == path;
            if k < head.len() {
                assert(all[k] == head[k]);
            } else {
                assert(all[k] == tail[0]);
            }
        }
    }
}

/// A call gives each path at most one signal: no two signals that follow a
/// call name the same path.
pub proof fn lemma_one_signal_for_each_path(
    at_root: bool,
    property: Property,
    root_before: Color,
    before: Seq<(u32, Color)>,
    root_after: Color,
    displays: Seq<OutputView>,
)
    requires
        well_formed(displays),
    ensures
        forall|a: int, b: int|
            0 <= a < b < signals_of(
                at_root,
                property,
                root_before,
                before,
                root_after,
                displays,
            ).len() ==> (#[trigger] signals_of(
                at_root,
                property,
                root_before,
                before,
                root_after,
                displays,
            )[a]).path != (#[trigger] signals_of(
                at_root,
                property,
                root_before,
                before,
                root_after,
                displays,
            )[b]).path,
{
    let all = signals_of(at_root, property, root_before, before, root_after, displays);
    let root = root_signal(root_before, root_after, property);
    let rest = display_signals(before, displays, property);
    lemma_display_signals_differ(before, displays, property);
    assert forall|k: int| 0 <= k < rest.len() implies (#[trigger] rest[k]).path != root_path() by {
        let m = choose|m: int|
            0 <= m < displays.len() && (#[trigger] displays[m]).path() == Some(rest[k].path);
        assert(rest[k].path.len() >= 9);
    }
}

/// Where nothing changed, no display's path gets a signal.
pub proof fn lemma_no_change_no_display_signal(
    before: Seq<OutputView>,
    displays: Seq<OutputView>,
    property: Property,
)
    requires
        well_formed(before),
        displays.len() <= before.len(),
        forall|i: int| 0 <= i < displays.len() ==> displays[i] == before[i],
    ensures
        display_signals(colors_of(before), displays, property) == Seq::<SignalView>::empty(),
    decreases displays.len(),
{
    if displays.len() > 0 {
        lemma_no_change_no_display_signal(before, displays.drop_last(), property);
        let at = displays.len() - 1;
        assert(before[at].color.valid());
        assert(colors_of(before)[at].1 == displays.last().color);
        assert(display_signal(colors_of(before), at, displays.last(), property)
            =~= Seq::<SignalView>::empty());
    }
}

/// A call that changes no display is silent: if the displays are after the
/// call what they were before, and the means handed in before and after are
/// the same numbers, no signal follows, neither on `/` nor on the path of any
/// display. So the second of two equal writes announces nothing.
pub proof fn lemma_no_change_is_silent(
    displays: Seq<OutputView>,
    at_root: bool,
    property: Property,
    mean_brightness: Binary64,
    mean_gamma: Binary64,
)
    requires
        well_formed(displays),
        !mean_brightness.spec_is_nan(),
        !mean_gamma.spec_is_nan(),
    ensures
        signals_of(
            at_root,
            property,
            aggregate(displays, mean_brightness, mean_gamma),
            colors_of(displays),
            aggregate(displays, mean_brightness, mean_gamma),
            displays,
        ) == Seq::<SignalView>::empty(),
{
    lemma_no_change_no_display_signal(displays, displays, property);
    let root = aggregate(displays, mean_brightness, mean_gamma);
}

} // verus!
