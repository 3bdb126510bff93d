//! Who uses the microphone: the audio sessions a poll found, and the
//! blacklist of applications whose sessions do not count.

use vstd::prelude::*;
use crate::text::{lowercase, lowercase_set, position_of};

verus! {

/// An audio session that a poll found active.
#[derive(Debug, Clone, PartialEq, Eq)]
pub struct AudioSession {
    pub process_id: u32,
    pub process_name: String,
    pub is_capture: bool,
    pub session_id: String,
}

impl AudioSession {
    /// A copy of the session.
    pub fn duplicate(&self) -> (copy: AudioSession)
        ensures
            copy == *self,
    {
        AudioSession {
            process_id: self.process_id,
            process_name: self.process_name.clone(),
            is_capture: self.is_capture,
            session_id: self.session_id.clone(),
        }
    }
}

/// Whether a session records from the microphone on behalf of a
/// process.
pub open spec fn uses_microphone(s: AudioSession) -> bool {
    s.is_capture && s.process_id != 0
}

/// The names of the sessions that record, in the order of the
/// sessions.
pub open spec fn capture_names(sessions: Seq<AudioSession>) -> Seq<Seq<char>> {
    sessions.filter(|s: AudioSession| s.is_capture).map_values(|s: AudioSession| s.process_name@)
}

/// The sessions whose process is not on a blacklist, in their order.
/// Names are compared in lowercase.
pub open spec fn allowed(sessions: Seq<AudioSession>, blacklist: Set<Seq<char>>) -> Seq<AudioSession> {
    sessions.filter(|s: AudioSession| !blacklist.contains(lowercase(s.process_name@)))
}

/// Filters the sessions of each poll by a blacklist of process names,
/// which it keeps in lowercase, and remembers the processes of the last
/// poll.
pub struct MicrophoneDetector {
    blacklist: Vec<String>,
    last_active_sessions: Vec<u32>,
}

impl MicrophoneDetector {
    /// The invariant of a detector: no name is on the blacklist twice.
    pub closed spec fn wf(&self) -> bool {
        forall|i: int, j: int|
            0 <= i < j < self.blacklist@.len() ==> self.blacklist@[i]@ != self.blacklist@[j]@
    }

    /// The names on the blacklist, as they are kept.
    pub closed spec fn blacklist(&self) -> Set<Seq<char>> {
        Set::new(|n: Seq<char>| exists|i: int| 0 <= i < self.blacklist@.len() && #[trigger] self.blacklist@[i]@ == n)
    }

    /// The process ids of the sessions the last poll let through, in
    /// their order.
    pub closed spec fn last_active(&self) -> Seq<u32> {
        self.last_active_sessions@
    }

    /// A detector with an empty blacklist that has seen no poll.
    pub fn new() -> (d: MicrophoneDetector)
        ensures
            d.wf(),
            d.blacklist() == Set::<Seq<char>>::empty(),
            d.last_active() == Seq::<u32>::empty(),
    {
        let d = MicrophoneDetector { blacklist: Vec::new(), last_active_sessions: Vec::new() };
        assert(d.blacklist() =~= Set::<Seq<char>>::empty());
        d
    }

    /// Puts the lowercase form of a name on the blacklist.
    pub fn add_to_blacklist(&mut self, process_name: String)
        requires
            old(self).wf(),
        ensures
            final(self).wf(),
            final(self).blacklist() == old(self).blacklist().insert(lowercase(process_name@)),
            final(self).last_active() == old(self).last_active(),
    {
        let lower = process_name.as_str().to_lowercase();
        match position_of(&self.blacklist, &lower) {
            Some(i) => {
                assert(self.blacklist@[i as int]@ == lower@);
                assert(self.blacklist() =~= old(self).blacklist().insert(lower@));
            },
            None => {
                self.blacklist.push(lower);
                proof {
                    let n = old(self).blacklist@.len() as int;
                    assert(self.blacklist@[n]@ == lower@);
                    assert forall|name: Seq<char>| #[trigger]
                        self.blacklist().contains(name) == old(self).blacklist().insert(lower@).contains(
                            name,
                        ) by {
                        if self.blacklist().contains(name) {
                            let i = choose|i: int|
                                0 <= i < self.blacklist@.len() && #[trigger] self.blacklist@[i]@ == name;
                            if i < n {
                                assert(old(self).blacklist@[i]@ == name);
                            }
                        }
                        if old(self).blacklist().contains(name) {
                            let i = choose|i: int|
                                0 <= i < old(self).blacklist@.len() && #[trigger] old(
                                    self,
                                ).blacklist@[i]@ == name;
                            assert(self.blacklist@[i]@ == name);
                        }
                    }
                    assert(self.blacklist() =~= old(self).blacklist().insert(lower@));
                }
            },
        }
    }

    /// Takes the lowercase form of a name off the blacklist.
    pub fn remove_from_blacklist(&mut self, process_name: &str)
        requires
            old(self).wf(),
        ensures
            final(self).wf(),
            final(self).blacklist() == old(self).blacklist().remove(lowercase(process_name@)),
            final(self).last_active() == old(self).last_active(),
    {
        let lower = process_name.to_lowercase();
        match position_of(&self.blacklist, &lower) {
            Some(i) => {
                let _ = self.blacklist.remove(i);
                proof {
                    let before = old(self).blacklist@;
                    let after = self.blacklist@;
                    assert(after =~= before.remove(i as int));
                    assert forall|k: int| 0 <= k < after.len() implies after[k] == before[if k < i {
                        k
                    } else {
                        k + 1
                    }] by {}
                    assert forall|name: Seq<char>| #[trigger]
                        self.blacklist().contains(name) == old(self).blacklist().remove(lower@).contains(
                            name,
                        ) by {
                        if self.blacklist().contains(name) {
                            let k = choose|k: int| 0 <= k < after.len() && #[trigger] after[k]@ == name;
                            let j = if k < i {
                                k
                            } else {
                                k + 1
                            };
                            assert(before[j]@ == name);
                        }
                        if old(self).blacklist().remove(lower@).contains(name) {
                            let j = choose|j: int| 0 <= j < before.len() && #[trigger] before[j]@ == name;
                            assert(j != i);
                            let k = if j < i {
                                j
                            } else {
                                j - 1
                            };
                            assert(after[k]@ == name);
                        }
                    }
                    assert(self.blacklist() =~= old(self).blacklist().remove(lower@));
                }
            },
            None => {
                assert(self.blacklist() =~= old(self).blacklist().remove(lower@));
            },
        }
    }

    /// Replaces the blacklist by the lowercase forms of the given
    /// names.
    pub fn set_blacklist(&mut self, processes: Vec<String>)
        ensures
            final(self).wf(),
            final(self).blacklist() == lowercase_set(processes@),
            final(self).last_active() == old(self).last_active(),
    {
        self.blacklist = Vec::new();
        assert(self.blacklist() =~= lowercase_set(processes@.subrange(0, 0)));
        let mut i: usize = 0;
        while i < processes.len()
            invariant
                0 <= i <= processes@.len(),
                self.wf(),
                self.blacklist() == lowercase_set(processes@.subrange(0, i as int)),
                self.last_active() == old(self).last_active(),
            decreases processes@.len() - i,
        {
            let ghost before = self.blacklist();
            self.add_to_blacklist(processes[i].clone());
            proof {
                let shorter = processes@.subrange(0, i as int);
                let longer = processes@.subrange(0, i as int + 1);
                assert(longer[i as int] == processes@[i as int]);
                assert forall|name: Seq<char>| #[trigger]
                    lowercase_set(longer).contains(name) == before.insert(
                        lowercase(processes@[i as int]@),
                    ).contains(name) by {
                    if lowercase_set(longer).contains(name) {
                        let k = choose|k: int| 0 <= k < longer.len() && lowercase(#[trigger] longer[k]@) == name;
                        if k < i {
                            assert(shorter[k] == longer[k]);
                        }
                    }
                    if before.contains(name) {
                        let k = choose|k: int| 0 <= k < shorter.len() && lowercase(#[trigger] shorter[k]@) == name;
                        assert(longer[k] == shorter[k]);
                    }
                }
                assert(self.blacklist() =~= lowercase_set(longer));
            }
            i += 1;
        }
        assert(processes@.subrange(0, processes@.len() as int) =~= processes@);
    }

    /// Whether the lowercase form of a name is on the blacklist.
    pub fn is_blacklisted(&self, process_name: &str) -> (b: bool)
        ensures
            b == self.blacklist().contains(lowercase(process_name@)),
    {
        let lower = process_name.to_lowercase();
        match position_of(&self.blacklist, &lower) {
            Some(i) => {
                assert(self.blacklist@[i as int]@ == lower@);
                true
            },
            None => false,
        }
    }

    /// Takes the sessions that a poll found on the capture device and
    /// returns those whose process is not blacklisted, in their order.
    /// Their process ids are remembered until the next poll.
    pub fn detect_active_sessions(&mut self, all_sessions: &Vec<AudioSession>) -> (active: Vec<
        AudioSession,
    >)
        ensures
            active@ == allowed(all_sessions@, old(self).blacklist()),
            final(self).last_active() == active@.map_values(|s: AudioSession| s.process_id),
            final(self).blacklist() == old(self).blacklist(),
            old(self).wf() ==> final(self).wf(),
    {
        let mut active: Vec<AudioSession> = Vec::new();
        let mut ids: Vec<u32> = Vec::new();
        let ghost listed = self.blacklist();
        let ghost keep = |s: AudioSession| !listed.contains(lowercase(s.process_name@));
        let mut i: usize = 0;
        proof {
            reveal(Seq::filter);
            assert(all_sessions@.subrange(0, 0).filter(keep) =~= Seq::<AudioSession>::empty());
        }
        while i < all_sessions.len()
            invariant
                0 <= i <= all_sessions@.len(),
                listed == self.blacklist(),
                keep == |s: AudioSession| !listed.contains(lowercase(s.process_name@)),
                active@ == all_sessions@.subrange(0, i as int).filter(keep),
                ids@ == active@.map_values(|s: AudioSession| s.process_id),
                *self == *old(self),
            decreases all_sessions@.len() - i,
        {
            let session = &all_sessions[i];
            let blocked = self.is_blacklisted(session.process_name.as_str());
            proof {
                reveal(Seq::filter);
                let longer = all_sessions@.subrange(0, i as int + 1);
                assert(longer.drop_last() =~= all_sessions@.subrange(0, i as int));
                assert(longer.last() == all_sessions@[i as int]);
            }
            if !blocked {
                ids.push(session.process_id);
                active.push(session.duplicate());
                assert(ids@ =~= active@.map_values(|s: AudioSession| s.process_id));
            }
            i += 1;
        }
        assert(all_sessions@.subrange(0, all_sessions@.len() as int) =~= all_sessions@);
        self.last_active_sessions = ids;
        active
    }

    /// Whether any of the sessions records from the microphone on behalf
    /// of a process.
    pub fn has_new_microphone_user(&self, sessions: &Vec<AudioSession>) -> (b: bool)
        ensures
            b == exists|i: int| 0 <= i < sessions@.len() && uses_microphone(#[trigger] sessions@[i]),
    {
        let mut i: usize = 0;
        while i < sessions.len()
            invariant
                0 <= i <= sessions@.len(),
                forall|k: int| 0 <= k < i ==> !uses_microphone(#[trigger] sessions@[k]),
            decreases sessions@.len() - i,
        {
            if sessions[i].is_capture && sessions[i].process_id != 0 {
                return true;
            }
            i += 1;
        }
        false
    }

    /// The names of the applications that record, in the order of their
    /// sessions.
    pub fn get_active_apps(&self, sessions: &Vec<AudioSession>) -> (apps: Vec<String>)
        ensures
            apps@.map_values(|name: String| name@) == capture_names(sessions@),
    {
        let mut apps: Vec<String> = Vec::new();
        let ghost recording = |s: AudioSession| s.is_capture;
        let mut i: usize = 0;
        proof {
            reveal(Seq::filter);
            assert(sessions@.subrange(0, 0).filter(recording) =~= Seq::<AudioSession>::empty());
            assert(apps@.map_values(|name: String| name@) =~= capture_names(sessions@.subrange(0, 0)));
        }
        while i < sessions.len()
            invariant
                0 <= i <= sessions@.len(),
                recording == |s: AudioSession| s.is_capture,
                apps@.map_values(|name: String| name@) == sessions@.subrange(0, i as int).filter(
                    recording,
                ).map_values(|s: AudioSession| s.process_name@),
            decreases sessions@.len() - i,
        {
            proof {
                reveal(Seq::filter);
                let longer = sessions@.subrange(0, i as int + 1);
                assert(longer.drop_last() =~= sessions@.subrange(0, i as int));
                assert(longer.last() == sessions@[i as int]);
            }
            let ghost before = apps@;
            if sessions[i].is_capture {
                apps.push(sessions[i].process_name.clone());
                proof {
                    let shorter = sessions@.subrange(0, i as int).filter(recording);
                    let longer = sessions@.subrange(0, i as int + 1).filter(recording);
                    assert(longer == shorter.push(sessions@[i as int]));
                    assert(apps@.map_values(|name: String| name@) =~= before.map_values(
                        |name: String| name@,
                    ).push(sessions@[i as int].process_name@));
                    assert(longer.map_values(|s: AudioSession| s.process_name@) =~= shorter.map_values(
                        |s: AudioSession| s.process_name@,
                    ).push(sessions@[i as int].process_name@));
                }
            }
            i += 1;
        }
        assert(sessions@.subrange(0, sessions@.len() as int) =~= sessions@);
        apps
    }
}

} // verus!
