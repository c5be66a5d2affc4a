//! Translation of change notifications into mirroring actions, with the
//! two-phase rename correlation.
use vstd::prelude::*;

verus! {

/// The kind of a change notification.
#[derive(PartialEq, Eq, Structural, Clone, Copy, Debug)]
pub enum EventKind {
    /// Entries were created.
    Create,
    /// Entries changed in a way not classified as a rename.
    Modify,
    /// First half of a rename: the old paths.
    RenameFrom,
    /// Second half of a rename: the new paths.
    RenameTo,
    /// A rename reported in another form.
    RenameOther,
    /// Entries were removed.
    Remove,
    /// Anything else.
    Other,
}

/// What the engine does in answer to a notification.
#[derive(Debug)]
pub enum Action {
    /// Mirror the source entry.
    Copy(String),
    /// Remove the counterpart of the source entry.
    Remove(String),
    /// Mirror the rename of the first path to the second.
    Rename(String, String),
    /// An old path for which the rename-to notification held no new path.
    Unmatched(String),
    /// An old path of an unfinished rename, dropped because a new rename began.
    Discarded(String),
    /// The notification is of a kind that is not handled.
    Unhandled,
}

/// The views of a list of paths.
pub open spec fn paths_view(v: Seq<String>) -> Seq<Seq<char>> {
    v.map_values(|s: String| s@)
}

/// Action `k` of a rename-to answer pairs the old paths from the back with
/// the new paths from the back; old paths left over are unmatched.
pub open spec fn rename_action(old: Seq<Seq<char>>, new: Seq<Seq<char>>, k: int, a: Action) -> bool {
    let o = old[old.len() - 1 - k];
    if k < new.len() {
        a matches Action::Rename(x, y) && x@ == o && y@ == new[new.len() - 1 - k]
    } else {
        a matches Action::Unmatched(x) && x@ == o
    }
}

/// The state of the translator: idle, or holding the old paths of a rename
/// whose second half has not arrived.
pub struct EventTranslator {
    pending: Option<Vec<String>>,
}

impl EventTranslator {
    /// The old paths awaiting their new paths, if a rename is under way.
    pub closed spec fn pending(&self) -> Option<Seq<Seq<char>>> {
        match self.pending {
            Some(v) => Some(paths_view(v@)),
            None => None,
        }
    }

    /// An idle translator.
    pub fn new() -> (r: Self)
        ensures
            r.pending() is None,
    {
        EventTranslator { pending: None }
    }

    /// Whether a rename is under way.
    pub fn awaiting_rename_target(&self) -> (r: bool)
        ensures
            r == self.pending() is Some,
    {
        self.pending.is_some()
    }

    /// The actions that answer a notification of `kind` over `paths`, and the
    /// new state: creations and modifications copy each path, removals remove
    /// each path, a rename-from starts a rename (dropping any unfinished one)
    /// and a rename-to finishes it; the rest is reported as unhandled.
    pub fn handle(&mut self, kind: EventKind, paths: Vec<String>) -> (r: Vec<Action>)
        ensures
            (kind is Create || kind is Modify) ==> final(self).pending() == old(self).pending()
                && r@.len() == paths@.len() && forall|i: int|
                0 <= i < r@.len() ==> (#[trigger] r@[i] matches Action::Copy(p) && p@
                    == paths@[i]@),
            kind is Remove ==> final(self).pending() == old(self).pending() && r@.len()
                == paths@.len() && forall|i: int|
                0 <= i < r@.len() ==> (#[trigger] r@[i] matches Action::Remove(p) && p@
                    == paths@[i]@),
            kind is RenameFrom ==> final(self).pending() == Some(paths_view(paths@)) && match old(
                self,
            ).pending() {
                None => r@.len() == 0,
                Some(stale) => r@.len() == stale.len() && forall|i: int|
                    0 <= i < r@.len() ==> (#[trigger] r@[i] matches Action::Discarded(p) && p@
                        == stale[i]),
            },
            kind is RenameTo && old(self).pending() is Some ==> final(self).pending() is None
                && r@.len() == old(self).pending().unwrap().len() && forall|k: int|
                0 <= k < r@.len() ==> rename_action(
                    old(self).pending().unwrap(),
                    paths_view(paths@),
                    k,
                    #[trigger] r@[k],
                ),
            ((kind is RenameTo && old(self).pending() is None) || kind is RenameOther
                || kind is Other) ==> final(self).pending() == old(self).pending() && r@.len()
                == 1 && r@[0] is Unhandled,
    {
        let mut out: Vec<Action> = Vec::new();
        match kind {
            EventKind::Create | EventKind::Modify => {
                let mut i: usize = 0;
                while i < paths.len()
                    invariant
                        i <= paths@.len(),
                        out@.len() == i,
                        self.pending() == old(self).pending(),
                        forall|j: int|
                            0 <= j < i ==> (#[trigger] out@[j] matches Action::Copy(p) && p@
                                == paths@[j]@),
                    decreases paths@.len() - i,
                {
                    out.push(Action::Copy(paths[i].clone()));
                    i = i + 1;
                }
            },
            EventKind::Remove => {
                let mut i: usize = 0;
                while i < paths.len()
                    invariant
                        i <= paths@.len(),
                        out@.len() == i,
                        self.pending() == old(self).pending(),
                        forall|j: int|
                            0 <= j < i ==> (#[trigger] out@[j] matches Action::Remove(p) && p@
                                == paths@[j]@),
                    decreases paths@.len() - i,
                {
                    out.push(Action::Remove(paths[i].clone()));
                    i = i + 1;
                }
            },
            EventKind::RenameFrom => {
                if let Some(stale) = &self.pending {
                    let mut i: usize = 0;
                    while i < stale.len()
                        invariant
                            i <= stale@.len(),
                            out@.len() == i,
                            forall|j: int|
                                0 <= j < i ==> (#[trigger] out@[j] matches Action::Discarded(p)
                                    && p@ == stale@[j]@),
                        decreases stale@.len() - i,
                    {
                        out.push(Action::Discarded(stale[i].clone()));
                        i = i + 1;
                    }
                }
                self.pending = Some(paths);
            },
            EventKind::RenameTo => {
                match self.pending.take() {
                    Some(old_paths) => {
                        let n = old_paths.len();
                        let m = paths.len();
                        let mut k: usize = 0;
                        while k < n
                            invariant
                                n == old_paths@.len(),
                                m == paths@.len(),
                                k <= n,
                                out@.len() == k,
                                forall|j: int|
                                    0 <= j < k ==> rename_action(
                                        paths_view(old_paths@),
                                        paths_view(paths@),
                                        j,
                                        #[trigger] out@[j],
                                    ),
                            decreases n - k,
                        {
                            let o = old_paths[n - 1 - k].clone();
                            if k < m {
                                out.push(Action::Rename(o, paths[m - 1 - k].clone()));
                            } else {
                                out.push(Action::Unmatched(o));
                            }
                            k = k + 1;
                        }
                    },
                    None => {
                        out.push(Action::Unhandled);
                    },
                }
            },
            EventKind::RenameOther | EventKind::Other => {
                out.push(Action::Unhandled);
            },
        }
        out
    }
}

} // verus!
