//! The set of externally executable command names, filled from directory
//! listings of the search path.

use vstd::prelude::*;
use crate::text::same_text;

verus! {

/// Names of the commands found on the search path, in the order they were
/// first seen, each once.
pub struct CommandSet {
    names: Vec<String>,
}

impl View for CommandSet {
    type V = Seq<Seq<char>>;

    closed spec fn view(&self) -> Seq<Seq<char>> {
        self.names.deep_view()
    }
}

/// One entry of a directory listing, as the loader needs it: its name,
/// whether it is a regular file, and its Unix permission bits.
pub struct FileInfo {
    pub name: String,
    pub is_file: bool,
    pub mode: u32,
}

/// A regular file with an execute bit set for someone.
pub open spec fn is_executable(e: FileInfo) -> bool {
    e.is_file && e.mode & 0o111u32 != 0
}

/// `names` after adding, in order, each executable entry not yet present.
pub open spec fn loaded(names: Seq<Seq<char>>, entries: Seq<FileInfo>) -> Seq<Seq<char>>
    decreases entries.len(),
{
    if entries.len() == 0 {
        names
    } else {
        let before = loaded(names, entries.drop_last());
        let e = entries.last();
        if is_executable(e) && !before.contains(e.name@) {
            before.push(e.name@)
        } else {
            before
        }
    }
}

impl CommandSet {
    /// Every name occurs once.
    pub open spec fn wf(&self) -> bool {
        self@.no_duplicates()
    }

    pub fn new() -> (r: CommandSet)
        ensures
            r.wf(),
            r@ == Seq::<Seq<char>>::empty(),
    {
        let r = CommandSet { names: Vec::new() };
        assert(r@ =~= Seq::<Seq<char>>::empty());
        r
    }

    /// The names, in the order they were added.
    pub fn names(&self) -> (r: &Vec<String>)
        ensures
            r.deep_view() == self@,
    {
        &self.names
    }

    pub fn contains(&self, name: &str) -> (r: bool)
        ensures
            r == self@.contains(name@),
    {
        let mut i: usize = 0;
        while i < self.names.len()
            invariant
                i <= self.names.len(),
                forall|j: int| 0 <= j < i ==> self@[j] != name@,
            decreases self.names.len() - i,
        {
            if same_text(self.names[i].as_str(), name) {
                assert(self@[i as int] == name@);
                return true;
            }
            i = i + 1;
        }
        false
    }

    /// Adds `name` unless it is already there.
    pub fn insert(&mut self, name: String)
        requires
            old(self).wf(),
        ensures
            final(self).wf(),
            final(self)@ == (if old(self)@.contains(name@) {
                old(self)@
            } else {
                old(self)@.push(name@)
            }),
    {
        if !self.contains(name.as_str()) {
            let ghost before = self@;
            let ghost added = name@;
            self.names.push(name);
            assert(self@ =~= before.push(added));
        }
    }
}

/// Adds to `commands` the name of every executable regular file among
/// `entries`, the listing of one directory of the search path.
pub fn load_commands_from_path(entries: &Vec<FileInfo>, commands: &mut CommandSet)
    requires
        old(commands).wf(),
    ensures
        final(commands).wf(),
        final(commands)@ == loaded(old(commands)@, entries@),
{
    let ghost start = commands@;
    let mut i: usize = 0;
    while i < entries.len()
        invariant
            i <= entries.len(),
            commands.wf(),
            commands@ == loaded(start, entries@.take(i as int)),
        decreases entries.len() - i,
    {
        let e = &entries[i];
        assert(entries@.take(i + 1).drop_last() =~= entries@.take(i as int));
        assert(entries@.take(i + 1).last() == *e);
        if e.is_file && e.mode & 0o111u32 != 0 {
            commands.insert(e.name.clone());
        }
        i = i + 1;
    }
    assert(entries@.take(entries.len() as int) =~= entries@);
}

} // verus!
