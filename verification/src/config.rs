use vstd::prelude::*;

verus! {

/// Name of a physical output (monitor), as the compositor reports it.
#[derive(Debug, Clone)]
pub struct MonitorId(pub String);

impl MonitorId {
    pub fn get(&self) -> (r: String)
        ensures
            r@ == self.0@,
    {
        self.0.clone()
    }
}

impl PartialEq for MonitorId {
    fn eq(&self, other: &MonitorId) -> (r: bool) {
        self.0 == other.0
    }
}

impl vstd::std_specs::cmp::PartialEqSpecImpl for MonitorId {
    open spec fn obeys_eq_spec() -> bool {
        true
    }

    open spec fn eq_spec(&self, other: &MonitorId) -> bool {
        self.0@ == other.0@
    }
}

/// One bar surface, anchored to one output.
#[derive(Debug, Clone)]
pub struct Bar {
    pub output: MonitorId,
}

/// Which outputs carry a bar.
#[derive(Debug, Clone)]
pub struct Config {
    pub bars: Vec<Bar>,
}

impl Default for Config {
    fn default() -> (r: Config)
        ensures
            r.bars@.len() == 0,
    {
        Config { bars: Vec::new() }
    }
}

} // verus!
