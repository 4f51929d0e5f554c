//! The tree on the bus follows the set of displays.
//!
//! The display set tells the bus of a change through an event in its queue,
//! and the tree changes when the event reaches it. So the two agree one queue
//! apart: the tree, once all queued events have reached it, holds exactly one
//! object for each named display, at the display's path and bound to its
//! registry name. This holds at the start and is kept by everything that the
//! display set and the tree do.

use crate::dbus_server::{after_event, after_events};
use crate::output::OutputView;
use crate::state::{apart, has_path, queue_after_removal, well_formed, without, EventView};
use crate::text::object_path_of;
use vstd::prelude::*;

verus! {

/// Where the display with this path stands. Among well-formed displays there
/// is at most one.
pub open spec fn index_of_path(displays: Seq<OutputView>, path: Seq<char>) -> int {
    choose|i: int| 0 <= i < displays.len() && (#[trigger] displays[i]).path() == Some(path)
}

/// The objects that the displays call for: one for each named display, from
/// its path to its registry name.
pub open spec fn objects_of(displays: Seq<OutputView>) -> Map<Seq<char>, u32> {
    Map::new(
        |path: Seq<char>| has_path(displays, path),
        |path: Seq<char>| displays[index_of_path(displays, path)].reg_name,
    )
}

/// The tree agrees with the displays, one queue apart.
pub open spec fn in_sync(
    objects: Map<Seq<char>, u32>,
    queued: Seq<EventView>,
    displays: Seq<OutputView>,
) -> bool {
    after_events(objects, queued) == objects_of(displays)
}

/// Among well-formed displays, the object at the path of a named display is
/// bound to that display.
pub proof fn lemma_object_of_display(displays: Seq<OutputView>, i: int)
    requires
        well_formed(displays),
        0 <= i < displays.len(),
        displays[i].path() is Some,
    ensures
        objects_of(displays).dom().contains(displays[i].path()->0),
        objects_of(displays)[displays[i].path()->0] == displays[i].reg_name,
        index_of_path(displays, displays[i].path()->0) == i,
{
    let path = displays[i].path()->0;
    let c = index_of_path(displays, path);
}

/// An event that joins the queue reaches the tree after all that wait.
pub proof fn lemma_after_events_push(
    objects: Map<Seq<char>, u32>,
    queued: Seq<EventView>,
    event: EventView,
)
    ensures
        after_events(objects, queued.push(event)) == after_event(
            after_events(objects, queued),
            event,
        ),
    decreases queued.len(),
{
    let longer = queued.push(event);
    if queued.len() == 0 {
        assert(longer.skip(1) =~= Seq::<EventView>::empty());
        assert(after_events(after_event(objects, event), Seq::<EventView>::empty())
            == after_event(objects, event));
    } else {
        assert(longer[0] == queued[0]);
        assert(longer.skip(1) =~= queued.skip(1).push(event));
        lemma_after_events_push(after_event(objects, queued[0]), queued.skip(1), event);
    }
}

/// At the start, with no display, no event and no object, the tree agrees
/// with the displays.
pub proof fn lemma_sync_at_start()
    ensures
        in_sync(
            Map::<Seq<char>, u32>::empty(),
            Seq::<EventView>::empty(),
            Seq::<OutputView>::empty(),
        ),
{
    assert(objects_of(Seq::<OutputView>::empty()) =~= Map::<Seq<char>, u32>::empty());
}

/// The agreement is kept when the oldest event leaves the queue and reaches
/// the tree, as [`crate::state::WaylandState::next_event`] and
/// [`crate::dbus_server::DbusServer::apply`] do it.
pub proof fn lemma_drain_keeps_sync(
    objects: Map<Seq<char>, u32>,
    queued: Seq<EventView>,
    displays: Seq<OutputView>,
)
    requires
        in_sync(objects, queued, displays),
        queued.len() > 0,
    ensures
        in_sync(after_event(objects, queued[0]), queued.skip(1), displays),
{
}

/// The agreement is kept by whatever leaves each display its registry name
/// and its name: a change of colour, a ramp size that was granted, a ramp that
/// was published.
pub proof fn lemma_same_names_keep_sync(
    objects: Map<Seq<char>, u32>,
    queued: Seq<EventView>,
    displays: Seq<OutputView>,
    after: Seq<OutputView>,
)
    requires
        in_sync(objects, queued, displays),
        well_formed(displays),
        well_formed(after),
        after.len() == displays.len(),
        forall|i: int|
            0 <= i < displays.len() ==> (#[trigger] after[i]).reg_name == displays[i].reg_name
                && after[i].name == displays[i].name,
    ensures
        in_sync(objects, queued, after),
{
    assert forall|path: Seq<char>| has_path(after, path) == has_path(displays, path) by {
        if has_path(displays, path) {
            let i = index_of_path(displays, path);
            assert(after[i].path() == Some(path));
        }
        if has_path(after, path) {
            let i = index_of_path(after, path);
            assert(displays[i].path() == Some(path));
        }
    }
    assert(objects_of(after) =~= objects_of(displays));
}

/// The agreement is kept when a display is bound: it has no name yet, and the
/// bus hears nothing of it.
pub proof fn lemma_binding_keeps_sync(
    objects: Map<Seq<char>, u32>,
    queued: Seq<EventView>,
    displays: Seq<OutputView>,
    bound: OutputView,
)
    requires
        in_sync(objects, queued, displays),
        well_formed(displays.push(bound)),
        bound.name is None,
    ensures
        in_sync(objects, queued, displays.push(bound)),
{
    let after = displays.push(bound);
    assert forall|path: Seq<char>| has_path(after, path) == has_path(displays, path) by {
        if has_path(displays, path) {
            let i = index_of_path(displays, path);
            assert(after[i].path() == Some(path));
        }
        if has_path(after, path) {
            let i = index_of_path(after, path);
            assert(displays[i].path() == Some(path));
        }
    }
    assert forall|path: Seq<char>| has_path(displays, path) implies objects_of(after)[path]
        == objects_of(displays)[path] by {
        let i = index_of_path(displays, path);
        let j = index_of_path(after, path);
        assert(after[i].path() == Some(path));
        lemma_object_of_display(after, i);
    }
    assert(objects_of(after) =~= objects_of(displays));
}

/// The agreement is kept when a display learns its name, as
/// [`crate::state::WaylandState::output_name`] records it: the display gets
/// its path, and the event that joins the queue gives the tree the object.
pub proof fn lemma_naming_keeps_sync(
    objects: Map<Seq<char>, u32>,
    queued: Seq<EventView>,
    displays: Seq<OutputView>,
    i: int,
    name: Seq<char>,
)
    requires
        in_sync(objects, queued, displays),
        well_formed(displays),
        0 <= i < displays.len(),
        displays[i].name is None,
        !has_path(displays, object_path_of(name)),
    ensures
        in_sync(
            objects,
            queued.push(EventView::NewOutput { reg_name: displays[i].reg_name, name }),
            displays.update(i, OutputView { name: Some(name), ..displays[i] }),
        ),
{
    let named = OutputView { name: Some(name), ..displays[i] };
    let after = displays.update(i, named);
    let path = object_path_of(name);
    let event = EventView::NewOutput { reg_name: displays[i].reg_name, name };
    lemma_after_events_push(objects, queued, event);
    assert(after[i].path() == Some(path));
    assert forall|p: Seq<char>| has_path(after, p) == (has_path(displays, p) || p == path) by {
        if has_path(displays, p) {
            let k = index_of_path(displays, p);
            assert(after[k].path() == Some(p));
        }
        if has_path(after, p) {
            let k = index_of_path(after, p);
            if k != i {
                assert(displays[k].path() == Some(p));
            }
        }
    }
    assert(objects_of(after) =~= objects_of(displays).insert(path, displays[i].reg_name));
}

/// The agreement is kept when a display leaves, as
/// [`crate::state::WaylandState::global_remove`] and
/// [`crate::state::WaylandState::gamma_failed`] take it out: if it had a name,
/// the event that joins the queue takes its object from the tree.
pub proof fn lemma_removal_keeps_sync(
    objects: Map<Seq<char>, u32>,
    queued: Seq<EventView>,
    displays: Seq<OutputView>,
    i: int,
)
    requires
        in_sync(objects, queued, displays),
        well_formed(displays),
        0 <= i < displays.len(),
    ensures
        in_sync(objects, queue_after_removal(queued, displays[i]), without(displays, i)),
{
    let after = without(displays, i);
    let last = displays.len() - 1;
    let gone = displays[i];
    assert forall|p: Seq<char>| has_path(after, p) == (has_path(displays, p) && gone.path()
        != Some(p)) by {
        if has_path(displays, p) && gone.path() != Some(p) {
            let k = index_of_path(displays, p);
            if k == last {
                assert(after[i].path() == Some(p));
            } else {
                assert(after[k].path() == Some(p));
            }
        }
        if has_path(after, p) {
            let k = index_of_path(after, p);
            let x = if k == i {
                last
            } else {
                k
            };
            assert(displays[x].path() == Some(p));
            if gone.path() == Some(p) {
                if x < i {
                    assert(apart(displays[x], displays[i]));
                } else if i < x {
                    assert(apart(displays[i], displays[x]));
                }
            }
        }
    }
    match gone.name {
        Some(name) => {
            let event = EventView::RemoveOutput { name };
            lemma_after_events_push(objects, queued, event);
            assert(objects_of(after) =~= objects_of(displays).remove(object_path_of(name)));
        },
        None => {
            assert(objects_of(after) =~= objects_of(displays));
        },
    }
}

} // verus!
