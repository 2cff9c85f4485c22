//! Routing a completed line: to a built-in command by name, or to an
//! external program. Running either is the caller's part.

use vstd::prelude::*;
use crate::text::{is_space, same_text};
use crate::tokenize::{join, join_words, parse, scan, tokens};

verus! {

/// The built-in commands.
#[derive(PartialEq, Eq, Structural, Clone, Copy, Debug)]
pub enum Builtin {
    /// Prints a greeting.
    Hello,
    /// Changes the working directory.
    Cd,
}

/// A name bound to a built-in.
pub struct Registration {
    pub name: String,
    pub builtin: Builtin,
}

/// The table of built-ins by name. A later registration of a name hides an
/// earlier one.
pub struct Registry {
    entries: Vec<Registration>,
}

impl View for Registry {
    type V = Seq<(Seq<char>, Builtin)>;

    closed spec fn view(&self) -> Seq<(Seq<char>, Builtin)> {
        self.entries@.map_values(|e: Registration| (e.name@, e.builtin))
    }
}

/// The built-in most recently registered under `name`.
pub open spec fn lookup(table: Seq<(Seq<char>, Builtin)>, name: Seq<char>) -> Option<Builtin>
    decreases table.len(),
{
    if table.len() == 0 {
        None
    } else if table.last().0 == name {
        Some(table.last().1)
    } else {
        lookup(table.drop_last(), name)
    }
}

impl Registry {
    pub fn new() -> (r: Registry)
        ensures
            r@ == Seq::<(Seq<char>, Builtin)>::empty(),
    {
        let r = Registry { entries: Vec::new() };
        assert(r@ =~= Seq::<(Seq<char>, Builtin)>::empty());
        r
    }

    /// The shell's own table: `hello` and `cd`.
    pub fn standard() -> (r: Registry)
        ensures
            r@ == seq![("hello"@, Builtin::Hello), ("cd"@, Builtin::Cd)],
    {
        let mut r = Registry::new();
        r.register(String::from_str("hello"), Builtin::Hello);
        r.register(String::from_str("cd"), Builtin::Cd);
        assert(r@ =~= seq![("hello"@, Builtin::Hello), ("cd"@, Builtin::Cd)]);
        r
    }

    pub fn register(&mut self, name: String, builtin: Builtin)
        ensures
            final(self)@ == old(self)@.push((name@, builtin)),
    {
        let ghost before = self@;
        let ghost key = name@;
        self.entries.push(Registration { name, builtin });
        assert(self@ =~= before.push((key, builtin)));
    }

    pub fn get(&self, name: &str) -> (r: Option<Builtin>)
        ensures
            r == lookup(self@, name@),
    {
        let mut i: usize = self.entries.len();
        assert(self@.take(i as int) =~= self@);
        while i > 0
            invariant
                i <= self.entries.len(),
                lookup(self@, name@) == lookup(self@.take(i as int), name@),
            decreases i,
        {
            assert(self@.take(i as int).drop_last() =~= self@.take(i - 1));
            if same_text(self.entries[i - 1].name.as_str(), name) {
                return Some(self.entries[i - 1].builtin);
            }
            i = i - 1;
        }
        None
    }
}

/// The words of `t` that are not empty, in order.
pub open spec fn nonempty_words(t: Seq<Seq<char>>) -> Seq<Seq<char>>
    decreases t.len(),
{
    if t.len() == 0 {
        Seq::empty()
    } else if t.last().len() > 0 {
        nonempty_words(t.drop_last()).push(t.last())
    } else {
        nonempty_words(t.drop_last())
    }
}

proof fn lemma_scan_blank(line: Seq<char>)
    requires
        forall|j: int| 0 <= j < line.len() ==> is_space(#[trigger] line[j]),
    ensures
        scan(line).done.len() == 0,
        scan(line).cur.len() == 0,
        !scan(line).quoted,
        !scan(line).escaped,
    decreases line.len(),
{
    if line.len() > 0 {
        lemma_scan_blank(line.drop_last());
        assert(is_space(line[line.len() - 1]));
    }
}

/// A line of blanks alone, the empty line among them, holds no word: it
/// is dispatched nowhere.
pub proof fn lemma_blank_line_has_no_command(line: Seq<char>)
    requires
        forall|j: int| 0 <= j < line.len() ==> is_space(#[trigger] line[j]),
    ensures
        nonempty_words(tokens(line)).len() == 0,
{
    lemma_scan_blank(line);
    let t = tokens(line);
    let st = scan(line);
    assert(st.done =~= Seq::<Seq<char>>::empty());
    if st.at_gap {
        assert(t =~= seq![Seq::<char>::empty()]);
        assert(t.drop_last() =~= Seq::<Seq<char>>::empty());
        assert(t.last().len() == 0);
        assert(nonempty_words(t) == nonempty_words(t.drop_last()));
    } else {
        assert(t.len() == 0);
    }
}

/// Where a line goes.
pub enum Dispatch {
    /// The line holds no word: nothing runs.
    Nothing,
    /// Run this built-in with these arguments, its own name first.
    Builtin(Builtin, Vec<String>),
    /// Run this external program; the first word names it.
    External(Vec<String>),
}

/// Routes `input`: its non-empty words, the first looked up among the
/// built-ins.
pub fn run(input: &str, builtins: &Registry) -> (r: Dispatch)
    ensures
        nonempty_words(tokens(input@)).len() == 0 ==> r is Nothing,
        nonempty_words(tokens(input@)).len() > 0 && lookup(
            builtins@,
            nonempty_words(tokens(input@))[0],
        ) is Some ==> r is Builtin && Some(r->Builtin_0) == lookup(
            builtins@,
            nonempty_words(tokens(input@))[0],
        ) && r->Builtin_1.deep_view() == nonempty_words(tokens(input@)),
        nonempty_words(tokens(input@)).len() > 0 && lookup(
            builtins@,
            nonempty_words(tokens(input@))[0],
        ) is None ==> r is External && r->External_0.deep_view() == nonempty_words(
            tokens(input@),
        ),
{
    let words = parse(input);
    let ghost t = words.deep_view();
    let mut command: Vec<String> = Vec::new();
    let mut i: usize = 0;
    assert(command.deep_view() =~= Seq::<Seq<char>>::empty());
    assert(t.take(0) =~= Seq::<Seq<char>>::empty());
    while i < words.len()
        invariant
            t == words.deep_view(),
            i <= words.len(),
            command.deep_view() == nonempty_words(t.take(i as int)),
        decreases words.len() - i,
    {
        assert(t.take(i + 1).drop_last() =~= t.take(i as int));
        assert(t.take(i + 1).last() == words[i as int]@);
        if !words[i].as_str().is_empty() {
            let ghost before = command.deep_view();
            command.push(words[i].clone());
            assert(command.deep_view() =~= before.push(words[i as int]@));
        }
        i = i + 1;
    }
    assert(t.take(words.len() as int) =~= t);
    if command.len() == 0 {
        return Dispatch::Nothing;
    }
    match builtins.get(command[0].as_str()) {
        Some(b) => Dispatch::Builtin(b, command),
        None => Dispatch::External(command),
    }
}

/// The directory that `cd` is asked to enter: its first argument, if any.
pub fn cd_target(command: &Vec<String>) -> (r: Option<String>)
    ensures
        command.len() >= 2 ==> r is Some && r->Some_0@ == command[1]@,
        command.len() < 2 ==> r is None,
{
    if command.len() >= 2 {
        Some(command[1].clone())
    } else {
        None
    }
}

/// The diagnostic for a failed `cd`: the command line as typed, then the
/// reason.
pub fn cd_failure(command: &Vec<String>, reason: &str) -> (r: String)
    ensures
        r@ == join(command.deep_view()) + ": "@ + reason@,
{
    let mut r = join_words(command);
    r.append(": ");
    r.append(reason);
    r
}

} // verus!
