//! The objects that the daemon has on the bus: `/`, the container `/outputs`,
//! and under it one object for each named display.

use crate::reactor::spec_owns_name;
use crate::state::{EventView, WaylandEvent};
use crate::text::{object_path, object_path_of, outputs_path};
use vstd::prelude::*;
use vstd::string::StringExecFns;

verus! {

/// What stands at a path.
#[derive(Clone, Copy, Debug, PartialEq, Eq, Structural)]
pub enum Node {
    /// `/`: the colour interface over all displays.
    Root,
    /// `/outputs`: the container of the displays' objects. It has no
    /// interface of its own.
    Outputs,
    /// `/outputs/<name>`: the colour interface of the display with this
    /// registry name.
    Output(u32),
}

/// The objects of the displays after `event` reached the bus.
pub open spec fn after_event(objects: Map<Seq<char>, u32>, event: EventView) -> Map<
    Seq<char>,
    u32,
> {
    match event {
        EventView::NewOutput { reg_name, name } => objects.insert(object_path_of(name), reg_name),
        EventView::RemoveOutput { name } => objects.remove(object_path_of(name)),
    }
}

/// The objects of the displays after each of `events` reached the bus, oldest
/// first.
pub open spec fn after_events(objects: Map<Seq<char>, u32>, events: Seq<EventView>) -> Map<
    Seq<char>,
    u32,
>
    decreases events.len(),
{
    if events.len() == 0 {
        objects
    } else {
        after_events(after_event(objects, events[0]), events.skip(1))
    }
}

/// What stands at `path`, given the objects of the displays.
pub open spec fn node_at(objects: Map<Seq<char>, u32>, path: Seq<char>) -> Option<Node> {
    if path == seq!['/'] {
        Some(Node::Root)
    } else if path == outputs_path() {
        Some(Node::Outputs)
    } else if objects.dom().contains(path) {
        Some(Node::Output(objects[path]))
    } else {
        None
    }
}

struct Child {
    path: String,
    reg_name: u32,
}

impl Child {
    fn set_reg_name(&mut self, reg_name: u32)
        ensures
            final(self).path == old(self).path,
            final(self).reg_name == reg_name,
    {
        self.reg_name = reg_name;
    }
}

/// The daemon's side of the bus: the objects of the displays, each at its
/// path and bound to the display's registry name.
pub struct DbusServer {
    children: Vec<Child>,
}

impl DbusServer {
    spec fn holds(&self, path: Seq<char>) -> bool {
        exists|i: int| 0 <= i < self.children@.len() && (#[trigger] self.children@[i]).path@ == path
    }

    spec fn place(&self, path: Seq<char>) -> int {
        choose|i: int| 0 <= i < self.children@.len() && (#[trigger] self.children@[i]).path@ == path
    }

    /// The objects of the displays: from each path to the registry name of
    /// the display behind it.
    pub closed spec fn objects(&self) -> Map<Seq<char>, u32> {
        Map::new(
            |path: Seq<char>| self.holds(path),
            |path: Seq<char>| self.children@[self.place(path)].reg_name,
        )
    }

    /// No path stands twice.
    pub closed spec fn wf(&self) -> bool {
        forall|i: int, j: int|
            0 <= i < j < self.children@.len() ==> (#[trigger] self.children@[i]).path@
                != (#[trigger] self.children@[j]).path@
    }

    /// The daemon's side of the bus after it asked for the well-known name
    /// and got `request_name_reply`: `None` unless the reply makes this
    /// process the owner, for then another instance runs. A new server has no
    /// object for any display.
    pub fn new(request_name_reply: u32) -> (r: Option<DbusServer>)
        ensures
            r is Some == spec_owns_name(request_name_reply),
            r matches Some(server) ==> server.wf() && server.objects() == Map::<
                Seq<char>,
                u32,
            >::empty(),
    {
        if crate::reactor::owns_name(request_name_reply) {
            let server = DbusServer { children: Vec::new() };
            assert(server.objects() =~= Map::<Seq<char>, u32>::empty());
            Some(server)
        } else {
            None
        }
    }

    fn find(&self, path: &String) -> (r: Option<usize>)
        requires
            self.wf(),
        ensures
            match r {
                Some(i) => i < self.children@.len() && self.children@[i as int].path@ == path@
                    && self.holds(path@) && self.place(path@) == i,
                None => !self.holds(path@),
            },
    {
        let mut i: usize = 0;
        while i < self.children.len()
            invariant
                self.wf(),
                i <= self.children.len(),
                forall|j: int| 0 <= j < i ==> (#[trigger] self.children@[j]).path@ != path@,
            decreases self.children.len() - i,
        {
            if self.children[i].path == *path {
                return Some(i);
            }
            i += 1;
        }
        None
    }

    /// Adds the object of the display that the compositor calls `name` and
    /// the registry `reg_name`. An object that stood at the same path gives
    /// way to it.
    pub fn add_output(&mut self, reg_name: u32, name: &str)
        requires
            old(self).wf(),
        ensures
            final(self).wf(),
            final(self).objects() == old(self).objects().insert(object_path_of(name@), reg_name),
    {
        let path = object_path(name);
        let ghost before = self.children@;
        match self.find(&path) {
            Some(i) => {
                self.children[i].set_reg_name(reg_name);
                proof {
                    let after = self.children@;
                    assert forall|p: Seq<char>| self.holds(p) == old(self).holds(p) by {
                        if old(self).holds(p) {
                            let k = old(self).place(p);
                            assert(after[k].path@ == p);
                        }
                        if self.holds(p) {
                            let k = self.place(p);
                            assert(before[k].path@ == p);
                        }
                    }
                }
            },
            None => {
                self.children.push(Child { path, reg_name });
                proof {
                    let after = self.children@;
                    assert(after[before.len() as int].path@ == path@);
                    assert forall|p: Seq<char>| self.holds(p) == (old(self).holds(p) || p
                        == path@) by {
                        if old(self).holds(p) {
                            let k = old(self).place(p);
                            assert(after[k].path@ == p);
                        }
                        if self.holds(p) {
                            let k = self.place(p);
                            if k < before.len() {
                                assert(before[k].path@ == p);
                            }
                        }
                    }
                    assert(self.objects() =~= old(self).objects().insert(path@, reg_name));
                }
            },
        }
    }

    /// Removes the object of the display that the compositor calls `name`, if
    /// there is one.
    pub fn remove_output(&mut self, name: &str)
        requires
            old(self).wf(),
        ensures
            final(self).wf(),
            final(self).objects() == old(self).objects().remove(object_path_of(name@)),
    {
        let path = object_path(name);
        let ghost before = self.children@;
        match self.find(&path) {
            Some(i) => {
                self.children.swap_remove(i);
                proof {
                    let after = self.children@;
                    let last = before.len() - 1;
                    assert forall|p: Seq<char>| self.holds(p) == (old(self).holds(p) && p
                        != path@) by {
                        if old(self).holds(p) && p != path@ {
                            let k = old(self).place(p);
                            if k == last {
                                assert(after[i as int].path@ == p);
                            } else {
                                assert(after[k].path@ == p);
                            }
                        }
                        if self.holds(p) {
                            let k = self.place(p);
                            let x = if k == i { last } else { k };
                            assert(before[x].path@ == p);
                            if p == path@ {
                                if x < i {
                                    assert(before[x].path@ != before[i as int].path@);
                                } else if i < x {
                                    assert(before[i as int].path@ != before[x].path@);
                                }
                            }
                        }
                    }
                }
            },
            None => {},
        }
    }

    /// Lets an event of the display set reach the bus: a display that learnt
    /// its name gets its object, one that left loses it.
    pub fn apply(&mut self, event: &WaylandEvent)
        requires
            old(self).wf(),
        ensures
            final(self).wf(),
            final(self).objects() == after_event(old(self).objects(), event@),
    {
        match event {
            WaylandEvent::NewOutput { reg_name, name } => {
                self.add_output(*reg_name, name.as_str());
            },
            WaylandEvent::RemoveOutput { name } => {
                self.remove_output(name.as_str());
            },
        }
    }

    /// What stands at `path`: `/`, the container, the object of a display,
    /// or nothing.
    pub fn node(&self, path: &str) -> (r: Option<Node>)
        requires
            self.wf(),
        ensures
            r == node_at(self.objects(), path@),
    {
        let path = String::from_str(path);
        proof {
            reveal_strlit("/");
            reveal_strlit("/outputs");
        }
        if path == String::from_str("/") {
            assert("/"@ =~= seq!['/']);
            return Some(Node::Root);
        }
        assert("/"@ =~= seq!['/']);
        if path == String::from_str("/outputs") {
            assert("/outputs"@ =~= outputs_path());
            return Some(Node::Outputs);
        }
        assert("/outputs"@ =~= outputs_path());
        match self.find(&path) {
            Some(i) => Some(Node::Output(self.children[i].reg_name)),
            None => None,
        }
    }
}

} // verus!
