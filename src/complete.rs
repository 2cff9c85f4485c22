//! Tab completion: of a command name from the known command set, or of a
//! path from a directory listing that the caller supplies.

use vstd::prelude::*;
use crate::commands::CommandSet;
use crate::text::{lemma_prefix_of_prefix, push_char, starts_with, suffix_from};
use crate::tokenize::{parse, tokens};

verus! {

/// `p` is a prefix of every name.
pub open spec fn is_common_prefix(p: Seq<char>, names: Seq<Seq<char>>) -> bool {
    forall|i: int| 0 <= i < names.len() ==> p.is_prefix_of(#[trigger] names[i])
}

/// `p` is a common prefix of the names and no longer one is.
pub open spec fn is_longest_common_prefix(p: Seq<char>, names: Seq<Seq<char>>) -> bool {
    &&& is_common_prefix(p, names)
    &&& forall|q: Seq<char>| #[trigger] is_common_prefix(q, names) ==> q.len() <= p.len()
}

/// The longest common prefix of the names; empty when there are none.
pub open spec fn longest_common_prefix(names: Seq<Seq<char>>) -> Seq<char> {
    if names.len() == 0 {
        Seq::empty()
    } else {
        choose|p: Seq<char>| is_longest_common_prefix(p, names)
    }
}

/// Of a non-empty set of names there is one longest common prefix.
pub proof fn lemma_longest_common_prefix_unique(p: Seq<char>, q: Seq<char>, names: Seq<Seq<char>>)
    requires
        names.len() > 0,
        is_longest_common_prefix(p, names),
        is_longest_common_prefix(q, names),
    ensures
        p == q,
{
    assert(p.is_prefix_of(names[0]));
    assert(q.is_prefix_of(names[0]));
    lemma_prefix_of_prefix(p, q, names[0]);
    assert(p =~= q);
}

/// The longest prefix that `a` and `b` share.
fn common_prefix(a: &str, b: &str) -> (r: String)
    ensures
        r@.is_prefix_of(a@),
        r@.is_prefix_of(b@),
        forall|q: Seq<char>|
            q.is_prefix_of(a@) && q.is_prefix_of(b@) ==> q.len() <= r@.len(),
{
    let n = a.unicode_len();
    let m = b.unicode_len();
    let mut i: usize = 0;
    while i < n && i < m && a.get_char(i) == b.get_char(i)
        invariant
            n == a@.len(),
            m == b@.len(),
            i <= n,
            i <= m,
            forall|j: int| 0 <= j < i ==> a@[j] == b@[j],
        decreases n - i,
    {
        i = i + 1;
    }
    let r = String::from_str(a.substring_char(0, i));
    assert(r@ =~= b@.subrange(0, i as int));
    assert forall|q: Seq<char>| q.is_prefix_of(a@) && q.is_prefix_of(b@) implies q.len()
        <= r@.len() by {
        if q.len() > i {
            assert(q[i as int] == a@.subrange(0, q.len() as int)[i as int]);
            assert(q[i as int] == b@.subrange(0, q.len() as int)[i as int]);
        }
    }
    r
}

/// The longest common prefix of `strs`, or an empty string when there are
/// none.
pub fn lcp(strs: &Vec<String>) -> (r: String)
    ensures
        r@ == longest_common_prefix(strs.deep_view()),
        strs.len() > 0 ==> is_longest_common_prefix(r@, strs.deep_view()),
{
    let ghost names = strs.deep_view();
    if strs.len() == 0 {
        return String::new();
    }
    let mut r = strs[0].clone();
    let mut k: usize = 1;
    assert forall|q: Seq<char>| #[trigger] is_common_prefix(q, names.take(1)) implies q.len()
        <= r@.len() by {
        assert(q.is_prefix_of(names.take(1)[0]));
    }
    while k < strs.len()
        invariant
            names == strs.deep_view(),
            1 <= k <= strs.len(),
            is_longest_common_prefix(r@, names.take(k as int)),
        decreases strs.len() - k,
    {
        let next = common_prefix(r.as_str(), strs[k].as_str());
        let ghost old_r = r@;
        proof {
            let pre = names.take(k as int);
            let post = names.take(k + 1);
            assert forall|i: int| 0 <= i < post.len() implies next@.is_prefix_of(#[trigger] post[i]) by {
                if i < k {
                    assert(old_r.is_prefix_of(pre[i]));
                    assert(pre[i] == post[i]);
                    assert(next@ =~= post[i].subrange(0, next@.len() as int));
                }
            }
            assert forall|q: Seq<char>| #[trigger] is_common_prefix(q, post) implies q.len()
                <= next@.len() by {
                assert forall|i: int| 0 <= i < pre.len() implies q.is_prefix_of(#[trigger] pre[i]) by {
                    assert(post[i] == pre[i]);
                }
                assert(is_common_prefix(q, pre));
                assert(q.is_prefix_of(pre[0]));
                assert(old_r.is_prefix_of(pre[0]));
                lemma_prefix_of_prefix(q, old_r, pre[0]);
                assert(q.is_prefix_of(post[k as int]));
            }
        }
        r = next;
        k = k + 1;
    }
    assert(names.take(strs.len() as int) =~= names);
    proof {
        let p = choose|p: Seq<char>| is_longest_common_prefix(p, names);
        lemma_longest_common_prefix_unique(p, r@, names);
    }
    r
}

/// What a completion yields: the text to append to the buffer, and the
/// candidate names to show when the choice is ambiguous.
pub struct Completion {
    pub suffix: String,
    pub candidates: Vec<String>,
}

impl View for Completion {
    type V = (Seq<char>, Seq<Seq<char>>);

    open spec fn view(&self) -> (Seq<char>, Seq<Seq<char>>) {
        (self.suffix@, self.candidates.deep_view())
    }
}

/// The completion from the names that extend `typed`: nothing for none;
/// for one, the rest of it and a `/` if it is a directory, else a space;
/// for several, the rest of their longest common prefix, listing them all.
pub open spec fn completion_of(typed: Seq<char>, names: Seq<Seq<char>>, single_dir: bool) -> (
    Seq<char>,
    Seq<Seq<char>>,
) {
    if names.len() == 0 {
        (Seq::empty(), Seq::empty())
    } else if names.len() == 1 {
        (names[0].skip(typed.len() as int).push(if single_dir { '/' } else { ' ' }), Seq::empty())
    } else {
        (longest_common_prefix(names).skip(typed.len() as int), names)
    }
}

/// The empty completion.
pub fn no_completion() -> (r: Completion)
    ensures
        r@ == (Seq::<char>::empty(), Seq::<Seq<char>>::empty()),
{
    let r = Completion { suffix: String::new(), candidates: Vec::new() };
    assert(r.candidates.deep_view() =~= Seq::<Seq<char>>::empty());
    r
}

fn completion_from_matches(typed: &str, matches: Vec<String>, single_dir: bool) -> (r: Completion)
    requires
        is_common_prefix(typed@, matches.deep_view()),
    ensures
        r@ == completion_of(typed@, matches.deep_view(), single_dir),
{
    let ghost names = matches.deep_view();
    let t = typed.unicode_len();
    if matches.len() == 0 {
        no_completion()
    } else if matches.len() == 1 {
        assert(typed@.is_prefix_of(names[0]));
        let mut suffix = suffix_from(matches[0].as_str(), t);
        push_char(&mut suffix, if single_dir { '/' } else { ' ' });
        let r = Completion { suffix, candidates: Vec::new() };
        assert(r.candidates.deep_view() =~= Seq::<Seq<char>>::empty());
        r
    } else {
        let p = lcp(&matches);
        assert(typed@.len() <= p@.len());
        let suffix = suffix_from(p.as_str(), t);
        Completion { suffix, candidates: matches }
    }
}

/// The names among `names` that start with `typed`, in order.
pub open spec fn names_extending(names: Seq<Seq<char>>, typed: Seq<char>) -> Seq<Seq<char>>
    decreases names.len(),
{
    if names.len() == 0 {
        Seq::empty()
    } else {
        let before = names_extending(names.drop_last(), typed);
        if typed.is_prefix_of(names.last()) {
            before.push(names.last())
        } else {
            before
        }
    }
}

proof fn lemma_names_extending(names: Seq<Seq<char>>, typed: Seq<char>)
    ensures
        is_common_prefix(typed, names_extending(names, typed)),
    decreases names.len(),
{
    if names.len() > 0 {
        lemma_names_extending(names.drop_last(), typed);
    }
}

/// Completion of a command name from the known commands.
pub fn suggest_command(s: &str, com: &CommandSet) -> (r: Completion)
    ensures
        r@ == completion_of(s@, names_extending(com@, s@), false),
{
    let all = com.names();
    let mut matches: Vec<String> = Vec::new();
    let mut i: usize = 0;
    assert(matches.deep_view() =~= Seq::<Seq<char>>::empty());
    assert(all.deep_view().take(0) =~= Seq::<Seq<char>>::empty());
    while i < all.len()
        invariant
            all.deep_view() == com@,
            i <= all.len(),
            matches.deep_view() == names_extending(com@.take(i as int), s@),
        decreases all.len() - i,
    {
        assert(com@.take(i + 1).drop_last() =~= com@.take(i as int));
        assert(com@.take(i + 1).last() == all[i as int]@);
        if starts_with(all[i].as_str(), s) {
            let ghost before = matches.deep_view();
            matches.push(all[i].clone());
            assert(matches.deep_view() =~= before.push(all[i as int]@));
        }
        i = i + 1;
    }
    assert(com@.take(all.len() as int) =~= com@);
    proof {
        lemma_names_extending(com@, s@);
    }
    completion_from_matches(s, matches, false)
}

/// One entry of a directory listing: its name and whether it is a
/// directory.
pub struct Entry {
    pub name: String,
    pub is_dir: bool,
}

/// The entries whose names start with `prefix`, in order.
pub open spec fn entries_extending(entries: Seq<Entry>, prefix: Seq<char>) -> Seq<Entry>
    decreases entries.len(),
{
    if entries.len() == 0 {
        Seq::empty()
    } else {
        let before = entries_extending(entries.drop_last(), prefix);
        if prefix.is_prefix_of(entries.last().name@) {
            before.push(entries.last())
        } else {
            before
        }
    }
}

pub open spec fn entry_names(entries: Seq<Entry>) -> Seq<Seq<char>> {
    entries.map_values(|e: Entry| e.name@)
}

/// The completion of `prefix` from a directory listing: a lone matching
/// directory is followed by `/`.
pub open spec fn path_completion(prefix: Seq<char>, entries: Seq<Entry>) -> (
    Seq<char>,
    Seq<Seq<char>>,
) {
    let m = entries_extending(entries, prefix);
    completion_of(prefix, entry_names(m), m.len() > 0 && m.last().is_dir)
}

/// Completion of the last component `prefix` of a path from the listing
/// `entries` of the directory it lies in.
pub fn suggest_path(prefix: &str, entries: &Vec<Entry>) -> (r: Completion)
    ensures
        r@ == path_completion(prefix@, entries@),
{
    let mut matches: Vec<String> = Vec::new();
    let mut last_dir = false;
    let ghost mut picked: Seq<Entry> = Seq::empty();
    let mut i: usize = 0;
    assert(matches.deep_view() =~= Seq::<Seq<char>>::empty());
    assert(entries@.take(0) =~= Seq::<Entry>::empty());
    while i < entries.len()
        invariant
            i <= entries.len(),
            picked == entries_extending(entries@.take(i as int), prefix@),
            matches.deep_view() == entry_names(picked),
            last_dir == (picked.len() > 0 && picked.last().is_dir),
            is_common_prefix(prefix@, matches.deep_view()),
        decreases entries.len() - i,
    {
        let e = &entries[i];
        assert(entries@.take(i + 1).drop_last() =~= entries@.take(i as int));
        assert(entries@.take(i + 1).last() == *e);
        if starts_with(e.name.as_str(), prefix) {
            let ghost before = matches.deep_view();
            matches.push(e.name.clone());
            last_dir = e.is_dir;
            proof {
                picked = picked.push(*e);
            }
            assert(matches.deep_view() =~= before.push(e.name@));
            assert(entry_names(picked) =~= before.push(e.name@));
        }
        i = i + 1;
    }
    assert(entries@.take(entries.len() as int) =~= entries@);
    completion_from_matches(prefix, matches, last_dir)
}

/// Position of the last `/` in `s`, or -1 when there is none.
pub open spec fn last_slash(s: Seq<char>) -> int
    decreases s.len(),
{
    if s.len() == 0 {
        -1
    } else if s.last() == '/' {
        s.len() - 1
    } else {
        last_slash(s.drop_last())
    }
}

proof fn lemma_last_slash_bounds(s: Seq<char>)
    ensures
        -1 <= last_slash(s) < s.len(),
    decreases s.len(),
{
    if s.len() > 0 {
        lemma_last_slash_bounds(s.drop_last());
    }
}

/// Where to look for completions of a path: the directory to list, and the
/// start of the names to match in it.
pub struct PathTarget {
    pub dir: String,
    pub prefix: String,
}

/// A path without one trailing `/`, if it has one.
pub open spec fn path_stem(s: Seq<char>) -> Seq<char> {
    if s.len() > 0 && s.last() == '/' {
        s.drop_last()
    } else {
        s
    }
}

/// The directory and name prefix for completing `fragment`. A fragment that
/// names an existing directory is listed whole. Otherwise, after dropping
/// one trailing `/`, the text up to and including its last `/` is the
/// directory (`.` when there is none) and the rest is the prefix.
pub fn path_target(fragment: &str, names_dir: bool) -> (r: PathTarget)
    ensures
        names_dir ==> r.dir@ == fragment@ && r.prefix@ == Seq::<char>::empty(),
        !names_dir && last_slash(path_stem(fragment@)) < 0 ==> r.dir@ == "."@ && r.prefix@
            == path_stem(fragment@),
        !names_dir && last_slash(path_stem(fragment@)) >= 0 ==> r.dir@ == path_stem(
            fragment@,
        ).take(last_slash(path_stem(fragment@)) + 1) && r.prefix@ == path_stem(fragment@).skip(
            last_slash(path_stem(fragment@)) + 1,
        ),
{
    if names_dir {
        return PathTarget { dir: String::from_str(fragment), prefix: String::new() };
    }
    let whole = fragment.unicode_len();
    let n = if whole > 0 && fragment.get_char(whole - 1) == '/' {
        whole - 1
    } else {
        whole
    };
    let stem = fragment.substring_char(0, n);
    assert(stem@ =~= path_stem(fragment@));
    let mut i: usize = 0;
    let mut cut: usize = 0;
    let mut found = false;
    assert(stem@.take(0) =~= Seq::<char>::empty());
    while i < n
        invariant
            n == stem@.len(),
            i <= n,
            found == (last_slash(stem@.take(i as int)) >= 0),
            found ==> cut == last_slash(stem@.take(i as int)) + 1,
        decreases n - i,
    {
        assert(stem@.take(i + 1).drop_last() =~= stem@.take(i as int));
        if stem.get_char(i) == '/' {
            found = true;
            cut = i + 1;
        }
        i = i + 1;
    }
    assert(stem@.take(n as int) =~= stem@);
    proof {
        lemma_last_slash_bounds(stem@);
    }
    if found {
        PathTarget {
            dir: String::from_str(stem.substring_char(0, cut)),
            prefix: String::from_str(stem.substring_char(cut, n)),
        }
    } else {
        PathTarget { dir: String::from_str("."), prefix: String::from_str(stem) }
    }
}

/// The outcome of asking for a completion: ready, or a path fragment whose
/// completion needs the file system (see `path_target` and `suggest_path`).
pub enum Suggestion {
    Ready(Completion),
    Path(String),
}

/// Completion of the first word: a path when it starts with `./`, else a
/// command name.
pub fn suggest_command_or_path(s: &str, com: &CommandSet) -> (r: Suggestion)
    ensures
        "./"@.is_prefix_of(s@) ==> r is Path && r->Path_0@ == s@,
        !"./"@.is_prefix_of(s@) ==> r is Ready && r->Ready_0@ == completion_of(
            s@,
            names_extending(com@, s@),
            false,
        ),
{
    if starts_with(s, "./") {
        Suggestion::Path(String::from_str(s))
    } else {
        Suggestion::Ready(suggest_command(s, com))
    }
}

/// Completion of a later word: flags (starting with `-`) are never
/// completed; anything else is a path.
pub fn suggest_argument_or_path(s: &str) -> (r: Suggestion)
    ensures
        "-"@.is_prefix_of(s@) ==> r is Ready && r->Ready_0@ == (
            Seq::<char>::empty(),
            Seq::<Seq<char>>::empty(),
        ),
        !"-"@.is_prefix_of(s@) ==> r is Path && r->Path_0@ == s@,
{
    if starts_with(s, "-") {
        Suggestion::Ready(no_completion())
    } else {
        Suggestion::Path(String::from_str(s))
    }
}

/// Completion for the edit buffer `s`: nothing when it holds no word, the
/// first word as a command (or `./` path), or else the last word as a
/// path argument.
pub fn suggest(s: &str, c: &CommandSet) -> (r: Suggestion)
    ensures
        tokens(s@).len() == 0 ==> r is Ready && r->Ready_0@ == (
            Seq::<char>::empty(),
            Seq::<Seq<char>>::empty(),
        ),
        tokens(s@).len() == 1 && "./"@.is_prefix_of(tokens(s@)[0]) ==> r is Path && r->Path_0@
            == tokens(s@)[0],
        tokens(s@).len() == 1 && !"./"@.is_prefix_of(tokens(s@)[0]) ==> r is Ready
            && r->Ready_0@ == completion_of(
            tokens(s@)[0],
            names_extending(c@, tokens(s@)[0]),
            false,
        ),
        tokens(s@).len() >= 2 && "-"@.is_prefix_of(tokens(s@).last()) ==> r is Ready
            && r->Ready_0@ == (Seq::<char>::empty(), Seq::<Seq<char>>::empty()),
        tokens(s@).len() >= 2 && !"-"@.is_prefix_of(tokens(s@).last()) ==> r is Path
            && r->Path_0@ == tokens(s@).last(),
{
    let args = parse(s);
    if args.len() == 0 {
        Suggestion::Ready(no_completion())
    } else if args.len() == 1 {
        suggest_command_or_path(args[0].as_str(), c)
    } else {
        suggest_argument_or_path(args[args.len() - 1].as_str())
    }
}

} // verus!
