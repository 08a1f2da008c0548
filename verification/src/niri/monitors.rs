//! Tracking which outputs currently carry workspaces.
//!
//! A workspace snapshot names each workspace's output; the monitor service
//! keeps the outputs in first-appearance order, without duplicates.

use vstd::prelude::*;

use crate::config::MonitorId;
use crate::niri::state::Workspace;

verus! {

/// The output names of a monitor list.
pub open spec fn monitor_views(ms: Seq<MonitorId>) -> Seq<Seq<char>> {
    ms.map_values(|m: MonitorId| m.0@)
}

/// The outputs named by a workspace list, each kept once, in the order of its
/// first appearance.
pub open spec fn dedup_outputs(ws: Seq<Workspace>) -> Seq<Seq<char>>
    decreases ws.len(),
{
    if ws.len() == 0 {
        Seq::empty()
    } else {
        let front = dedup_outputs(ws.drop_last());
        match ws.last().monitor_id {
            Some(m) => if front.contains(m.0@) {
                front
            } else {
                front.push(m.0@)
            },
            None => front,
        }
    }
}

/// Whether `name` is already among the collected monitors.
fn contains_monitor(ms: &Vec<MonitorId>, name: &MonitorId) -> (r: bool)
    ensures
        r == monitor_views(ms@).contains(name.0@),
{
    let mut i: usize = 0;
    while i < ms.len()
        invariant
            i <= ms@.len(),
            forall|j: int| 0 <= j < i ==> monitor_views(ms@)[j] != name.0@,
        decreases ms@.len() - i,
    {
        if ms[i].0 == name.0 {
            proof {
                assert(monitor_views(ms@)[i as int] == name.0@);
            }
            return true;
        }
        i = i + 1;
    }
    false
}

/// The outputs of a workspace snapshot, deduplicated in first-appearance
/// order.
pub fn monitors_from_workspaces(workspaces: &Vec<Workspace>) -> (r: Vec<MonitorId>)
    ensures
        monitor_views(r@) == dedup_outputs(workspaces@),
{
    let mut out: Vec<MonitorId> = Vec::new();
    let mut i: usize = 0;
    proof {
        assert(workspaces@.subrange(0, 0) =~= Seq::<Workspace>::empty());
        assert(monitor_views(out@) =~= Seq::<Seq<char>>::empty());
    }
    while i < workspaces.len()
        invariant
            i <= workspaces@.len(),
            monitor_views(out@) == dedup_outputs(workspaces@.subrange(0, i as int)),
        decreases workspaces@.len() - i,
    {
        let ghost pre = out@;
        proof {
            assert(workspaces@.subrange(0, i + 1).drop_last() =~= workspaces@.subrange(
                0,
                i as int,
            ));
            assert(workspaces@.subrange(0, i + 1).last() == workspaces@[i as int]);
        }
        match &workspaces[i].monitor_id {
            Some(m) => {
                if !contains_monitor(&out, m) {
                    out.push(MonitorId(m.get()));
                    proof {
                        assert(monitor_views(out@) =~= monitor_views(pre).push(m.0@));
                    }
                }
            },
            None => (),
        }
        i = i + 1;
    }
    proof {
        assert(workspaces@.subrange(0, workspaces@.len() as int) =~= workspaces@);
    }
    out
}

/// What the monitor service consumes.
#[derive(Debug, Clone)]
pub enum Message {
    UpdateMonitors(Vec<MonitorId>),
}

/// The monitor service: the current list of outputs, in first-appearance
/// order.
#[derive(Debug, Clone)]
pub struct MonitorsServ {
    monitors: Vec<MonitorId>,
}

impl View for MonitorsServ {
    type V = Seq<MonitorId>;

    closed spec fn view(&self) -> Seq<MonitorId> {
        self.monitors@
    }
}

impl MonitorsServ {
    /// Starts with no outputs known.
    pub fn new() -> (r: MonitorsServ)
        ensures
            r@.len() == 0,
    {
        MonitorsServ { monitors: Vec::new() }
    }

    pub fn len(&self) -> (r: usize)
        ensures
            r == self@.len(),
    {
        self.monitors.len()
    }

    /// The tracked outputs, in order.
    pub fn iter(&self) -> (r: &Vec<MonitorId>)
        ensures
            r@ == self@,
    {
        &self.monitors
    }

    /// Replaces the output list with the one the message carries.
    pub fn update(&mut self, message: Message)
        ensures
            match message {
                Message::UpdateMonitors(monitors) => final(self)@ == monitors@,
            },
    {
        match message {
            Message::UpdateMonitors(monitors) => {
                self.monitors = monitors;
            },
        }
    }
}

} // verus!
