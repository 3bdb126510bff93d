//! The presence oracle that goes by process names: a call counts as
//! active while any monitored application runs.

use vstd::prelude::*;
use crate::text::{lowercase, lowercase_set, position_of};

verus! {

/// Knows the applications to watch for, by the lowercase form of their
/// names.
pub struct ProcessMonitor {
    monitored_apps: Vec<String>,
}

impl ProcessMonitor {
    /// The lowercase names of the applications watched for.
    pub closed spec fn monitored(&self) -> Set<Seq<char>> {
        Set::new(
            |n: Seq<char>|
                exists|i: int| 0 <= i < self.monitored_apps@.len() && #[trigger] self.monitored_apps@[i]@ == n,
        )
    }

    /// A monitor for the given applications, whose names are kept in
    /// lowercase.
    pub fn new(apps: Vec<String>) -> (m: ProcessMonitor)
        ensures
            m.monitored() == lowercase_set(apps@),
    {
        let mut monitored_apps: Vec<String> = Vec::new();
        let mut i: usize = 0;
        while i < apps.len()
            invariant
                0 <= i <= apps@.len(),
                monitored_apps@.len() == i,
                forall|k: int| 0 <= k < i ==> (#[trigger] monitored_apps@[k])@ == lowercase(apps@[k]@),
            decreases apps@.len() - i,
        {
            monitored_apps.push(apps[i].as_str().to_lowercase());
            i += 1;
        }
        let m = ProcessMonitor { monitored_apps };
        proof {
            assert forall|name: Seq<char>| #[trigger]
                m.monitored().contains(name) == lowercase_set(apps@).contains(name) by {
                if m.monitored().contains(name) {
                    let k = choose|k: int|
                        0 <= k < m.monitored_apps@.len() && #[trigger] m.monitored_apps@[k]@ == name;
                    assert(lowercase(apps@[k]@) == name);
                }
                if lowercase_set(apps@).contains(name) {
                    let k = choose|k: int| 0 <= k < apps@.len() && lowercase(#[trigger] apps@[k]@) == name;
                    assert(m.monitored_apps@[k]@ == name);
                }
            }
            assert(m.monitored() =~= lowercase_set(apps@));
        }
        m
    }

    /// Whether one of the running processes is a monitored application.
    /// Names are compared in lowercase.
    pub fn is_call_active(&self, running: &Vec<String>) -> (active: bool)
        ensures
            active == exists|i: int|
                0 <= i < running@.len() && self.monitored().contains(lowercase(#[trigger] running@[i]@)),
    {
        let mut i: usize = 0;
        while i < running.len()
            invariant
                0 <= i <= running@.len(),
                forall|k: int|
                    0 <= k < i ==> !self.monitored().contains(lowercase(#[trigger] running@[k]@)),
            decreases running@.len() - i,
        {
            let lower = running[i].as_str().to_lowercase();
            match position_of(&self.monitored_apps, &lower) {
                Some(at) => {
                    assert(self.monitored_apps@[at as int]@ == lower@);
                    return true;
                },
                None => {},
            }
            i += 1;
        }
        false
    }
}

} // verus!
