//! A live leaf: what is remembered of it, and what its operations make of the host's answers.

use vstd::prelude::*;
use vstd::string::*;

use crate::containment::cgroup::dir::interface_path;
use crate::containment::cgroup::parse;
use crate::containment::cgroup::placement::Verdict;
use crate::containment::cgroup::removal::LeafFlags;
use crate::errno;
use crate::errno::{removed_after_drain, OsError};
use crate::report::{Level, Record};
use crate::text;

verus! {

/// A live leaf sub-cgroup created for a single spawned process tree.
#[derive(Debug)]
pub struct CgroupLeaf {
    /// Absolute path to the leaf directory.
    pub leaf_path: String,
    /// The leaf's unified-hierarchy path, as `/proc/<pid>/cgroup` prints it. `None` for a leaf
    /// created outside the cgroup filesystem.
    pub cgroup_path: Option<String>,
    /// What its removal goes by.
    pub flags: LeafFlags,
}

impl CgroupLeaf {
    /// A leaf just created: its child has not entered, and its drop may kill.
    pub fn new(leaf_path: String, cgroup_path: Option<String>) -> (l: CgroupLeaf)
        ensures
            l.leaf_path == leaf_path,
            l.cgroup_path == cgroup_path,
            l.flags == (LeafFlags { entered: false, armed: true, killed: false }),
    {
        CgroupLeaf {
            leaf_path,
            cgroup_path,
            flags: LeafFlags { entered: false, armed: true, killed: false },
        }
    }

    /// The leaf's `cgroup.events` path, the drain edge.
    pub fn events_path(&self) -> (s: String)
        ensures
            s@ == self.leaf_path@ + "/"@ + "cgroup.events"@,
    {
        interface_path(self.leaf_path.as_str(), "cgroup.events")
    }

    /// Record what the verdict says of the child.
    pub fn settle(&mut self, verdict: &Verdict)
        ensures
            final(self).flags == (LeafFlags { entered: verdict.entered(), ..old(self).flags }),
            final(self).leaf_path == old(self).leaf_path,
            final(self).cgroup_path == old(self).cgroup_path,
    {
        self.flags.entered = verdict.child_entered();
    }

    /// Give up the kill of the drop, so that the tree runs on. The tidying is not given up.
    pub fn disarm(&mut self)
        ensures
            final(self).flags == (LeafFlags { armed: false, ..old(self).flags }),
            final(self).leaf_path == old(self).leaf_path,
            final(self).cgroup_path == old(self).cgroup_path,
    {
        self.flags.armed = false;
    }

    /// What a kill through the leaf came to, given how writing `cgroup.kill` went.
    ///
    /// `Ok` means the tree is dead: either the atomic kill fired, or the leaf was already gone, which
    /// is itself proof that every member had exited, and is worth a quiet record. Every other errno
    /// means the kill did not happen, and is returned.
    pub fn hard_kill(&mut self, written: Result<(), OsError>) -> (r: Result<Option<Record>, OsError>)
        ensures
            final(self).leaf_path == old(self).leaf_path,
            final(self).cgroup_path == old(self).cgroup_path,
            final(self).flags == (LeafFlags {
                killed: old(self).flags.killed || written is Ok,
                ..old(self).flags
            }),
            match written {
                Ok(_) => r == Ok::<Option<Record>, OsError>(None),
                Err(e) => if errno::gone(e) {
                    r matches Ok(Some(record)) && record.level == Level::Debug && record.message@
                        == "cgroup.kill: leaf "@ + old(self).leaf_path@
                        + "/cgroup.kill is already gone"@
                } else {
                    r == Err::<Option<Record>, OsError>(e)
                },
            },
    {
        match written {
            Ok(()) => {
                self.flags.killed = true;
                Ok(None)
            },
            Err(e) => if removed_after_drain(&e) {
                let mut message = "cgroup.kill: leaf ".to_owned();
                message.append(self.leaf_path.as_str());
                message.append("/cgroup.kill is already gone");
                Ok(Some(Record { level: Level::Debug, message }))
            } else {
                Err(e)
            },
        }
    }

    /// The pids to send a `SIGTERM`, given what reading `cgroup.procs` gave: those it lists. A leaf
    /// that is already gone has no member left to signal.
    pub fn terminate(procs: Result<String, OsError>) -> (r: Result<Vec<i32>, OsError>)
        ensures
            match procs {
                Ok(contents) => r matches Ok(pids) && pids@ == parse::pids_of_lines(
                    text::lines(contents@),
                ),
                Err(e) => if errno::gone(e) {
                    r matches Ok(pids) && pids@.len() == 0
                } else {
                    r == Err::<Vec<i32>, OsError>(e)
                },
            },
    {
        match procs {
            Ok(contents) => Ok(parse::parse_pids(contents.as_str())),
            Err(e) => if removed_after_drain(&e) {
                Ok(Vec::new())
            } else {
                Err(e)
            },
        }
    }
}

} // verus!
