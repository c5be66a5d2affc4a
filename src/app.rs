//! The mirroring engine: root projection, the copy decision, the file
//! operations it asks for and the order in which it runs.
use vstd::prelude::*;
use crate::config::Config;
use crate::path_map::{
    file_name, first_occurrence, map_path, mapped, parent, path_file_name, path_parent,
    path_with_file_name, with_file_name, MapFault,
};

verus! {

/// How a filesystem call failed, as far as the engine cares.
#[derive(PartialEq, Eq, Structural, Clone, Copy, Debug)]
pub enum IoFailure {
    /// The path does not exist.
    NotFound,
    /// Any other failure.
    Other,
}

/// Errors of the engine.
#[derive(Debug)]
pub enum AppError {
    /// A filesystem call failed.
    IoError(IoFailure),
    /// A modification time could not be turned into an age.
    SystemTime,
    /// The path does not lie under the source root, or has no file name.
    PathErr(String),
    /// The source root matched the path, but not on a component boundary.
    StripPrefix(String),
}

/// What is known of the destination file before a sweep decides on it.
#[derive(PartialEq, Eq, Structural, Clone, Copy, Debug)]
pub enum DestMeta {
    /// There is no destination file.
    Missing,
    /// It exists, last modified this many seconds ago.
    Present(u64),
    /// Its metadata could not be read.
    Unreadable,
}

/// One filesystem operation on the destination side.
#[derive(Debug)]
pub enum FsOp {
    /// Create the directory and all its missing ancestors.
    CreateDirAll(String),
    /// Copy the first file onto the second.
    CopyFile(String, String),
    /// Remove an empty directory.
    RemoveDir(String),
    /// Remove a file.
    RemoveFile(String),
    /// Rename the first path to the second.
    Rename(String, String),
}

/// One entry of the source tree as the sweep sees it.
#[derive(Debug)]
pub struct SweepEntry {
    /// The entry's path.
    pub path: String,
    /// It is a regular file.
    pub is_file: bool,
    /// Seconds since the source file was last modified.
    pub age_secs: u64,
    /// The state of its destination counterpart.
    pub dest: DestMeta,
}

/// Stages of a run, in order.
#[derive(PartialEq, Eq, Structural, Clone, Copy, Debug)]
pub enum Stage {
    /// Checking that both roots can be listed.
    CheckRoots,
    /// The one-time sweep of the source tree.
    Reconcile,
    /// Following change notifications until the stream ends.
    Watch,
}

/// What a run does after a stage has ended.
#[derive(Debug)]
pub enum RunStep {
    /// Go on with this stage.
    Next(Stage),
    /// The run is over with this result.
    Finish(Result<(), AppError>),
}

/// A copy is owed when the destination is missing or its age differs from
/// the source's.
pub open spec fn copy_required(age_secs: u64, dest: DestMeta) -> bool {
    match dest {
        DestMeta::Missing => true,
        DestMeta::Present(d) => d != age_secs,
        DestMeta::Unreadable => false,
    }
}

/// A sweep entry that gets copied.
pub open spec fn swept(e: SweepEntry) -> bool {
    e.is_file && copy_required(e.age_secs, e.dest)
}

/// The paths of the entries that the sweep copies, in order.
pub open spec fn sweep_paths(entries: Seq<SweepEntry>) -> Seq<Seq<char>>
    decreases entries.len(),
{
    if entries.len() == 0 {
        Seq::empty()
    } else {
        let rest = sweep_paths(entries.drop_last());
        if swept(entries.last()) {
            rest.push(entries.last().path@)
        } else {
            rest
        }
    }
}

/// Every regular file of the sweep that needs a copy is copied, and nothing
/// else is: a path is in the sweep's list exactly when some entry with that
/// path is a file whose copy is required.
pub proof fn lemma_sweep_copies_required_files(entries: Seq<SweepEntry>)
    ensures
        forall|k: int| 0 <= k < entries.len() && swept(#[trigger] entries[k]) ==> sweep_paths(
            entries,
        ).contains(entries[k].path@),
        forall|q: Seq<char>| #[trigger]
            sweep_paths(entries).contains(q) ==> exists|k: int|
                0 <= k < entries.len() && swept(#[trigger] entries[k]) && entries[k].path@ == q,
    decreases entries.len(),
{
    if entries.len() > 0 {
        let init = entries.drop_last();
        lemma_sweep_copies_required_files(init);
        let rest = sweep_paths(init);
        assert forall|k: int| 0 <= k < entries.len() && swept(#[trigger] entries[k]) implies sweep_paths(
            entries,
        ).contains(entries[k].path@) by {
            if k < entries.len() - 1 {
                assert(init[k] == entries[k]);
                let w = choose|w: int| 0 <= w < rest.len() && rest[w] == entries[k].path@;
                if swept(entries.last()) {
                    assert(rest.push(entries.last().path@)[w] == rest[w]);
                }
            } else {
                assert(rest.push(entries.last().path@)[rest.len() as int] == entries.last().path@);
            }
        }
        assert forall|q: Seq<char>| #[trigger] sweep_paths(entries).contains(q) implies exists|k: int|
            0 <= k < entries.len() && swept(#[trigger] entries[k]) && entries[k].path@ == q by {
            let w = choose|w: int| 0 <= w < sweep_paths(entries).len() && sweep_paths(entries)[w] == q;
            if swept(entries.last()) && w == rest.len() {
                assert(swept(entries[entries.len() - 1]));
            } else {
                if swept(entries.last()) {
                    assert(rest.push(entries.last().path@)[w] == rest[w]);
                }
                assert(rest.contains(q));
                let k = choose|k: int| 0 <= k < init.len() && swept(#[trigger] init[k]) && init[k].path@ == q;
                assert(init[k] == entries[k]);
            }
        }
    }
}

/// The mirroring engine.
pub struct App {
    source: String,
    destination: String,
}

impl App {
    /// The source root.
    pub closed spec fn source_root(&self) -> Seq<char> {
        self.source@
    }

    /// The destination root.
    pub closed spec fn destination_root(&self) -> Seq<char> {
        self.destination@
    }

    /// The destination counterpart of `p`.
    pub open spec fn dest_of(&self, p: Seq<char>) -> Option<Seq<char>> {
        mapped(self.source_root(), self.destination_root(), p)
    }

    /// `op` mirrors the source entry `src`: a directory is created with its
    /// ancestors at the counterpart, a file is copied onto it.
    pub open spec fn copy_plan(&self, src: Seq<char>, src_is_dir: bool, op: FsOp) -> bool {
        if src_is_dir {
            op matches FsOp::CreateDirAll(d) && Some(d@) == self.dest_of(src)
        } else {
            op matches FsOp::CopyFile(s, d) && s@ == src && Some(d@) == self.dest_of(src)
        }
    }

    /// Copying the same source entry twice asks for the same operation, from
    /// the same source onto the same target, both times.
    pub proof fn lemma_copy_repeatable(&self, src: Seq<char>, src_is_dir: bool, first: FsOp, second: FsOp)
        requires
            self.copy_plan(src, src_is_dir, first),
            self.copy_plan(src, src_is_dir, second),
        ensures
            first matches FsOp::CreateDirAll(a) ==> second matches FsOp::CreateDirAll(b) && a@ == b@,
            first matches FsOp::CopyFile(s1, d1) ==> second matches FsOp::CopyFile(s2, d2) && s1@
                == s2@ && d1@ == d2@,
    {
    }

    /// An engine over the configured roots.
    pub fn new(config: Config) -> (r: Self)
        ensures
            r.source_root() == config.source@,
            r.destination_root() == config.destination@,
    {
        let Config { source, destination } = config;
        App { source, destination }
    }

    /// Decides what a run does once `stage` has ended with `outcome`: a
    /// failure to list the roots or to sweep ends the run with that error; the
    /// end of watching ends it with success, whatever watching reported.
    pub fn run(&self, stage: Stage, outcome: Result<(), AppError>) -> (r: RunStep)
        ensures
            stage is CheckRoots && outcome is Ok ==> r == RunStep::Next(Stage::Reconcile),
            stage is Reconcile && outcome is Ok ==> r == RunStep::Next(Stage::Watch),
            stage is Watch ==> r matches RunStep::Finish(Ok(())),
            !(stage is Watch) && outcome is Err ==> r == RunStep::Finish(outcome),
    {
        match stage {
            Stage::CheckRoots => match outcome {
                Ok(()) => RunStep::Next(Stage::Reconcile),
                Err(e) => RunStep::Finish(Err(e)),
            },
            Stage::Reconcile => match outcome {
                Ok(()) => RunStep::Next(Stage::Watch),
                Err(e) => RunStep::Finish(Err(e)),
            },
            Stage::Watch => RunStep::Finish(Ok(())),
        }
    }

    /// The paths of the sweep's entries that must be copied, in order: the
    /// regular files for which a copy is required.
    pub fn initial_sync(&self, entries: &Vec<SweepEntry>) -> (r: Vec<String>)
        ensures
            r@.map_values(|s: String| s@) == sweep_paths(entries@),
    {
        let mut out: Vec<String> = Vec::new();
        let mut i: usize = 0;
        while i < entries.len()
            invariant
                i <= entries@.len(),
                out@.map_values(|s: String| s@) == sweep_paths(entries@.subrange(0, i as int)),
            decreases entries@.len() - i,
        {
            let e = &entries[i];
            let ghost pre = entries@.subrange(0, i as int);
            let ghost next = entries@.subrange(0, i + 1);
            assert(next.drop_last() =~= pre);
            if e.is_file && App::sync_by_metadata(e.age_secs, e.dest) {
                let p = e.path.clone();
                out.push(p);
                assert(out@.map_values(|s: String| s@) =~= sweep_paths(pre).push(e.path@));
            }
            i = i + 1;
        }
        assert(entries@.subrange(0, entries@.len() as int) =~= entries@);
        out
    }

    /// Whether a source file last modified `age_secs` seconds ago must be
    /// copied onto a destination in state `dest`.
    pub fn sync_by_metadata(age_secs: u64, dest: DestMeta) -> (r: bool)
        ensures
            r == copy_required(age_secs, dest),
    {
        match dest {
            DestMeta::Missing => true,
            DestMeta::Present(d) => d != age_secs,
            DestMeta::Unreadable => false,
        }
    }

    /// The destination counterpart of the source path `entry`.
    pub fn build_dest_path(&self, entry: &str) -> (r: Result<String, AppError>)
        ensures
            r matches Ok(q) ==> self.dest_of(entry@) == Some(q@),
            r is Err <==> self.dest_of(entry@) is None,
            r matches Err(e) ==> (e matches AppError::PathErr(m) && m@ == self.source_root()
                && first_occurrence(entry@, self.source_root()) is None) || (
            e matches AppError::StripPrefix(m) && m@ == entry@ && first_occurrence(
                entry@,
                self.source_root(),
            ) is Some),
    {
        match map_path(self.source.as_str(), self.destination.as_str(), entry) {
            Ok(q) => Ok(q),
            Err(MapFault::RootNotFound) => Err(AppError::PathErr(self.source.clone())),
            Err(MapFault::NotOnBoundary) => Err(AppError::StripPrefix(entry.to_owned())),
        }
    }

    /// The operation that mirrors the source entry `src`: a directory is
    /// created with its ancestors, a file is copied.
    pub fn copy(&self, src: &str, src_is_dir: bool) -> (r: Result<FsOp, AppError>)
        ensures
            r is Err <==> self.dest_of(src@) is None,
            r matches Ok(op) ==> self.copy_plan(src@, src_is_dir, op),
    {
        let dst = self.build_dest_path(src)?;
        if src_is_dir {
            Ok(FsOp::CreateDirAll(dst))
        } else {
            Ok(FsOp::CopyFile(src.to_owned(), dst))
        }
    }

    /// What to do after `op` failed with `failure`: a file copy whose target
    /// directory is missing is retried once after creating that directory and
    /// its ancestors; any other failure is final.
    pub fn copy_recovery(op: &FsOp, failure: IoFailure) -> (r: Option<(FsOp, FsOp)>)
        ensures
            r is Some <==> (op matches FsOp::CopyFile(_, d) && failure == IoFailure::NotFound
                && parent(d@) is Some),
            r matches Some((first, second)) ==> (op matches FsOp::CopyFile(s, d) && (
            first matches FsOp::CreateDirAll(p) && Some(p@) == parent(d@)) && (
            second matches FsOp::CopyFile(s2, d2) && s2@ == s@ && d2@ == d@)),
    {
        match op {
            FsOp::CopyFile(s, d) => {
                if failure != IoFailure::NotFound {
                    return None;
                }
                match path_parent(d.as_str()) {
                    Some(p) => Some((FsOp::CreateDirAll(p), FsOp::CopyFile(s.clone(), d.clone()))),
                    None => None,
                }
            },
            _ => None,
        }
    }

    /// The operation that removes the counterpart of the source entry `src`:
    /// an (empty) directory where the counterpart is one, a file otherwise.
    pub fn remove(&self, src: &str, dst_is_dir: bool) -> (r: Result<FsOp, AppError>)
        ensures
            r is Err <==> self.dest_of(src@) is None,
            r matches Ok(op) ==> if dst_is_dir {
                op matches FsOp::RemoveDir(d) && Some(d@) == self.dest_of(src@)
            } else {
                op matches FsOp::RemoveFile(d) && Some(d@) == self.dest_of(src@)
            },
    {
        let dst = self.build_dest_path(src)?;
        if dst_is_dir {
            Ok(FsOp::RemoveDir(dst))
        } else {
            Ok(FsOp::RemoveFile(dst))
        }
    }

    /// The rename that mirrors a source rename from `from` to `to`: inside the
    /// directory of `to`'s counterpart, `from`'s file name becomes `to`'s.
    pub fn rename(&self, from: &str, to: &str) -> (r: Result<FsOp, AppError>)
        ensures
            r is Ok <==> file_name(to@) is Some && file_name(from@) is Some && self.dest_of(
                to@,
            ) is Some,
            file_name(to@) is None ==> (r matches Err(AppError::PathErr(m)) && m@ == to@),
            file_name(to@) is Some && file_name(from@) is None ==> (r matches Err(
                AppError::PathErr(m),
            ) && m@ == from@),
            r matches Ok(op) ==> (op matches FsOp::Rename(a, b) && a@ == with_file_name(
                self.dest_of(to@).unwrap(),
                file_name(from@).unwrap(),
            ) && b@ == with_file_name(self.dest_of(to@).unwrap(), file_name(to@).unwrap())),
    {
        let new_name = match path_file_name(to) {
            Some(n) => n,
            None => {
                return Err(AppError::PathErr(to.to_owned()));
            },
        };
        let old_name = match path_file_name(from) {
            Some(n) => n,
            None => {
                return Err(AppError::PathErr(from.to_owned()));
            },
        };
        let dst = self.build_dest_path(to)?;
        let a = path_with_file_name(dst.as_str(), old_name.as_str());
        let b = path_with_file_name(dst.as_str(), new_name.as_str());
        Ok(FsOp::Rename(a, b))
    }
}

} // verus!
