//! Which rebuild follows a change of which file. Watching the file system
//! is left to the caller, who hands over the paths reported as changed.
//! Paths are compared as text, so the caller hands each path in one form
//! (its components joined again).

use vstd::prelude::*;

use crate::resource_store::reload_command::RebuildCommand;

verus! {

/// The files whose changes lead to a rebuild, each with its command.
pub struct FileWatcher {
    watched_files: Vec<(String, RebuildCommand)>,
    watched: Ghost<Map<Seq<char>, RebuildCommand>>,
}

/// The commands for `changed_paths`, in order, skipping paths that are not
/// watched.
pub open spec fn commands_for(
    watched: Map<Seq<char>, RebuildCommand>,
    changed_paths: Seq<Seq<char>>,
) -> Seq<RebuildCommand>
    decreases changed_paths.len(),
{
    if changed_paths.len() == 0 {
        Seq::empty()
    } else {
        let earlier = commands_for(watched, changed_paths.drop_last());
        let path = changed_paths.last();
        if watched.dom().contains(path) {
            earlier.push(watched[path])
        } else {
            earlier
        }
    }
}

impl FileWatcher {
    /// The watched paths and the command each leads to.
    pub closed spec fn watched(&self) -> Map<Seq<char>, RebuildCommand> {
        self.watched@
    }

    /// Each path is listed once, and the list is exactly the watched map.
    pub closed spec fn wf(&self) -> bool {
        &&& forall|i: int, j: int|
            0 <= i < self.watched_files@.len() && 0 <= j < self.watched_files@.len() && i != j
                ==> #[trigger] self.watched_files@[i].0@ != #[trigger] self.watched_files@[j].0@
        &&& forall|i: int|
            0 <= i < self.watched_files@.len() ==> self.watched@.dom().contains(
                #[trigger] self.watched_files@[i].0@,
            ) && self.watched@[self.watched_files@[i].0@] == self.watched_files@[i].1
        &&& forall|p: Seq<char>| #[trigger]
            self.watched@.dom().contains(p) ==> exists|i: int|
                0 <= i < self.watched_files@.len() && #[trigger] self.watched_files@[i].0@ == p
    }

    pub fn new() -> (r: FileWatcher)
        ensures
            r.wf(),
            r.watched() == Map::<Seq<char>, RebuildCommand>::empty(),
    {
        FileWatcher { watched_files: Vec::new(), watched: Ghost(Map::empty()) }
    }

    /// Position of `path` in the list, if it is watched.
    fn position(&self, path: &String) -> (r: Option<usize>)
        requires
            self.wf(),
        ensures
            match r {
                Some(i) => i < self.watched_files@.len() && self.watched_files@[i as int].0@ == path@,
                None => !self.watched().dom().contains(path@),
            },
    {
        let mut i: usize = 0;
        while i < self.watched_files.len()
            invariant
                self.wf(),
                i <= self.watched_files@.len(),
                forall|j: int| 0 <= j < i ==> #[trigger] self.watched_files@[j].0@ != path@,
            decreases self.watched_files@.len() - i,
        {
            if self.watched_files[i].0 == *path {
                return Some(i);
            }
            i = i + 1;
        }
        None
    }

    /// Watches `path`: a later change of it leads to `watched_object`, in
    /// place of whatever it led to before.
    pub fn watch_file(&mut self, path: String, watched_object: RebuildCommand)
        requires
            old(self).wf(),
        ensures
            final(self).wf(),
            final(self).watched() == old(self).watched().insert(path@, watched_object),
    {
        let ghost new_watched = self.watched@.insert(path@, watched_object);
        let ghost p = path@;
        match self.position(&path) {
            Some(i) => {
                self.watched_files.set(i, (path, watched_object));
                self.watched = Ghost(new_watched);
                assert forall|q: Seq<char>| #[trigger] self.watched@.dom().contains(q) implies exists|k: int|
                    0 <= k < self.watched_files@.len() && #[trigger] self.watched_files@[k].0@ == q by {
                    if q == p {
                        assert(self.watched_files@[i as int].0@ == q);
                    } else {
                        let k = choose|k: int|
                            0 <= k < old(self).watched_files@.len()
                                && #[trigger] old(self).watched_files@[k].0@ == q;
                        assert(self.watched_files@[k].0@ == q);
                    }
                }
            },
            None => {
                let ghost n = self.watched_files@.len();
                self.watched_files.push((path, watched_object));
                self.watched = Ghost(new_watched);
                assert forall|q: Seq<char>| #[trigger] self.watched@.dom().contains(q) implies exists|k: int|
                    0 <= k < self.watched_files@.len() && #[trigger] self.watched_files@[k].0@ == q by {
                    if q == p {
                        assert(self.watched_files@[n as int].0@ == q);
                    } else {
                        let k = choose|k: int|
                            0 <= k < old(self).watched_files@.len()
                                && #[trigger] old(self).watched_files@[k].0@ == q;
                        assert(self.watched_files@[k].0@ == q);
                    }
                }
            },
        }
    }

    /// The rebuild commands for the paths reported as changed, in the order
    /// of the report; paths that are not watched are skipped.
    pub fn process_updates(&self, changed_paths: &Vec<String>) -> (r: Vec<RebuildCommand>)
        requires
            self.wf(),
        ensures
            r@ == commands_for(self.watched(), Seq::new(changed_paths@.len(), |i: int| changed_paths@[i]@)),
    {
        let ghost paths = Seq::new(changed_paths@.len(), |i: int| changed_paths@[i]@);
        let mut commands: Vec<RebuildCommand> = Vec::new();
        let mut i: usize = 0;
        while i < changed_paths.len()
            invariant
                self.wf(),
                i <= changed_paths@.len(),
                paths == Seq::new(changed_paths@.len(), |i: int| changed_paths@[i]@),
                commands@ == commands_for(self.watched(), paths.take(i as int)),
            decreases changed_paths@.len() - i,
        {
            assert(paths.take(i + 1).drop_last() == paths.take(i as int));
            match self.position(&changed_paths[i]) {
                Some(j) => {
                    commands.push(self.watched_files[j].1);
                },
                None => {},
            }
            i = i + 1;
        }
        assert(paths.take(changed_paths@.len() as int) == paths);
        commands
    }
}

} // verus!
