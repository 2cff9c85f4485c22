//! Splitting a line into words, with double-quoted spans and backslash
//! escapes. Quote characters and escape markers are structural: they never
//! appear in a word.

use vstd::prelude::*;
use crate::text::{is_space, is_space_char, push_char};

verus! {

/// Where a left-to-right scan of a line stands after some prefix of it.
pub struct Scan {
    /// Words finished so far, none of them empty.
    pub done: Seq<Seq<char>>,
    /// The word being read.
    pub cur: Seq<char>,
    /// Inside a double-quoted span.
    pub quoted: bool,
    /// The previous character was an escaping backslash.
    pub escaped: bool,
    /// The last character read was a separating space.
    pub at_gap: bool,
}

pub open spec fn scan_start() -> Scan {
    Scan { done: Seq::empty(), cur: Seq::empty(), quoted: false, escaped: false, at_gap: false }
}

/// One character of the scan. The escape flag is looked at first, then the
/// quote state, so a backslash inside quotes is an ordinary character.
pub open spec fn scan_step(st: Scan, c: char) -> Scan {
    if st.escaped {
        Scan { cur: st.cur.push(c), escaped: false, at_gap: false, ..st }
    } else if st.quoted {
        if c == '"' {
            Scan { quoted: false, at_gap: false, ..st }
        } else {
            Scan { cur: st.cur.push(c), at_gap: false, ..st }
        }
    } else if c == '"' {
        Scan { quoted: true, at_gap: false, ..st }
    } else if c == '\\' {
        Scan { escaped: true, at_gap: false, ..st }
    } else if is_space(c) {
        Scan {
            done: if st.cur.len() > 0 { st.done.push(st.cur) } else { st.done },
            cur: Seq::empty(),
            at_gap: c == ' ',
            ..st
        }
    } else {
        Scan { cur: st.cur.push(c), at_gap: false, ..st }
    }
}

pub open spec fn scan(s: Seq<char>) -> Scan
    decreases s.len(),
{
    if s.len() == 0 {
        scan_start()
    } else {
        scan_step(scan(s.drop_last()), s.last())
    }
}

/// The words of a line: the finished words, the pending one if it is not
/// empty, and one empty word when the line ends in a separating space
/// (not quoted, not escaped).
pub open spec fn tokens(s: Seq<char>) -> Seq<Seq<char>> {
    let st = scan(s);
    let t = if st.cur.len() > 0 { st.done.push(st.cur) } else { st.done };
    if st.at_gap { t.push(Seq::empty()) } else { t }
}

/// Splits `input` into its words (see `tokens`). An unterminated quote
/// runs to the end of the line.
pub fn parse(input: &str) -> (r: Vec<String>)
    ensures
        r.deep_view() == tokens(input@),
{
    let n = input.unicode_len();
    let mut done: Vec<String> = Vec::new();
    let mut cur = String::new();
    let mut quoted = false;
    let mut escaped = false;
    let mut at_gap = false;
    let mut i: usize = 0;
    assert(done.deep_view() =~= Seq::<Seq<char>>::empty());
    assert(input@.take(0) =~= Seq::<char>::empty());
    while i < n
        invariant
            n == input@.len(),
            i <= n,
            scan(input@.take(i as int)) == (Scan {
                done: done.deep_view(),
                cur: cur@,
                quoted,
                escaped,
                at_gap,
            }),
        decreases n - i,
    {
        let c = input.get_char(i);
        let ghost st0 = Scan { done: done.deep_view(), cur: cur@, quoted, escaped, at_gap };
        assert(input@.take(i + 1).drop_last() =~= input@.take(i as int));
        assert(input@.take(i + 1).last() == c);
        assert(scan(input@.take(i + 1)) == scan_step(st0, c));
        if escaped {
            push_char(&mut cur, c);
            escaped = false;
            at_gap = false;
        } else if quoted {
            if c == '"' {
                quoted = false;
            } else {
                push_char(&mut cur, c);
            }
            at_gap = false;
        } else if c == '"' {
            quoted = true;
            at_gap = false;
        } else if c == '\\' {
            escaped = true;
            at_gap = false;
        } else if is_space_char(c) {
            if !cur.as_str().is_empty() {
                let ghost before = done.deep_view();
                let ghost word = cur@;
                done.push(cur);
                assert(done.deep_view() =~= before.push(word));
                cur = String::new();
            } else {
                assert(cur@ =~= Seq::<char>::empty());
            }
            at_gap = c == ' ';
        } else {
            push_char(&mut cur, c);
            at_gap = false;
        }
        assert(scan_step(st0, c) == (Scan { done: done.deep_view(), cur: cur@, quoted, escaped, at_gap }));
        i = i + 1;
    }
    assert(input@.take(n as int) =~= input@);
    if !cur.as_str().is_empty() {
        let ghost before = done.deep_view();
        let ghost last = cur@;
        done.push(cur);
        assert(done.deep_view() =~= before.push(last));
    }
    if at_gap {
        let ghost before = done.deep_view();
        done.push(String::new());
        assert(done.deep_view() =~= before.push(Seq::empty()));
    }
    done
}

/// The words joined with single spaces.
pub open spec fn join(words: Seq<Seq<char>>) -> Seq<char>
    decreases words.len(),
{
    if words.len() == 0 {
        Seq::empty()
    } else if words.len() == 1 {
        words[0]
    } else {
        join(words.drop_last()) + seq![' '] + words.last()
    }
}

/// Joins `words` with single spaces.
pub fn join_words(words: &Vec<String>) -> (r: String)
    ensures
        r@ == join(words.deep_view()),
{
    let ghost w = words.deep_view();
    let mut r = String::new();
    if words.len() == 0 {
        return r;
    }
    r.append(words[0].as_str());
    let mut i: usize = 1;
    assert(w.take(1).drop_last() =~= Seq::<Seq<char>>::empty());
    assert(r@ =~= join(w.take(1)));
    while i < words.len()
        invariant
            w == words.deep_view(),
            1 <= i <= words.len(),
            r@ == join(w.take(i as int)),
        decreases words.len() - i,
    {
        assert(w.take(i + 1).drop_last() =~= w.take(i as int));
        assert(w.take(i + 1).last() == words[i as int]@);
        r.append(" ");
        r.append(words[i].as_str());
        proof {
            reveal_strlit(" ");
        }
        assert(r@ =~= join(w.take(i as int)) + seq![' '] + words[i as int]@);
        i = i + 1;
    }
    assert(w.take(words.len() as int) =~= w);
    r
}

/// A character with a meaning to the scanner: a blank, a quote or a
/// backslash.
pub open spec fn is_special(c: char) -> bool {
    is_space(c) || c == '"' || c == '\\'
}

/// A word with no special character in it.
pub open spec fn is_plain(w: Seq<char>) -> bool {
    forall|j: int| 0 <= j < w.len() ==> !is_special(#[trigger] w[j])
}

proof fn lemma_scan_words_nonempty(s: Seq<char>)
    ensures
        forall|i: int| 0 <= i < scan(s).done.len() ==> (#[trigger] scan(s).done[i]).len() > 0,
        scan(s).at_gap ==> scan(s).cur.len() == 0,
    decreases s.len(),
{
    if s.len() > 0 {
        lemma_scan_words_nonempty(s.drop_last());
    }
}

proof fn lemma_scan_plain(x: Seq<char>, w: Seq<char>)
    requires
        is_plain(w),
        !scan(x).quoted,
        !scan(x).escaped,
    ensures
        w.len() == 0 ==> scan(x + w) == scan(x),
        w.len() > 0 ==> scan(x + w) == (Scan { cur: scan(x).cur + w, at_gap: false, ..scan(x) }),
    decreases w.len(),
{
    if w.len() == 0 {
        assert(x + w =~= x);
    } else {
        lemma_scan_plain(x, w.drop_last());
        assert((x + w).drop_last() =~= x + w.drop_last());
        assert((x + w).last() == w.last());
        assert(!is_special(w[w.len() - 1]));
        if w.len() == 1 {
            assert(x + w.drop_last() =~= x);
            assert(scan(x).cur.push(w.last()) =~= scan(x).cur + w);
        } else {
            assert((scan(x).cur + w.drop_last()).push(w.last()) =~= scan(x).cur + w);
        }
    }
}

proof fn lemma_scan_join(t: Seq<Seq<char>>)
    requires
        t.len() >= 1,
        forall|i: int| 0 <= i < t.len() ==> is_plain(#[trigger] t[i]),
        forall|i: int| 0 <= i < t.len() - 1 ==> (#[trigger] t[i]).len() > 0,
    ensures
        scan(join(t)) == (Scan {
            done: t.drop_last(),
            cur: t.last(),
            quoted: false,
            escaped: false,
            at_gap: t.len() > 1 && t.last().len() == 0,
        }),
    decreases t.len(),
{
    if t.len() == 1 {
        let e = Seq::<char>::empty();
        lemma_scan_plain(e, t[0]);
        assert(e + t[0] =~= t[0]);
        assert(t.drop_last() =~= Seq::<Seq<char>>::empty());
        if t[0].len() > 0 {
            assert(e + t[0] =~= t[0]);
            assert(Seq::<char>::empty() + t[0] =~= t[0]);
        } else {
            assert(t[0] =~= Seq::<char>::empty());
        }
    } else {
        let u = t.drop_last();
        assert(forall|i: int| 0 <= i < u.len() ==> u[i] == t[i]);
        lemma_scan_join(u);
        let g = join(u) + seq![' '];
        assert(g.drop_last() =~= join(u));
        assert(u.drop_last().push(u.last()) =~= u);
        lemma_scan_plain(g, t.last());
        assert(join(t) == g + t.last());
        if t.last().len() > 0 {
            assert(Seq::<char>::empty() + t.last() =~= t.last());
        } else {
            assert(t.last() =~= Seq::<char>::empty());
        }
    }
}

/// Splitting a line, joining its words with single spaces and splitting
/// again gives the same words, as long as no word holds a blank, a quote or
/// a backslash (which the join would expose) and the words are not one
/// empty word alone (from a line of blanks, whose join is empty).
pub proof fn lemma_rejoin_tokens(line: Seq<char>)
    requires
        forall|i: int| 0 <= i < tokens(line).len() ==> is_plain(#[trigger] tokens(line)[i]),
        tokens(line) != seq![Seq::<char>::empty()],
    ensures
        tokens(join(tokens(line))) == tokens(line),
{
    let t = tokens(line);
    lemma_scan_words_nonempty(line);
    if t.len() == 0 {
        assert(tokens(Seq::<char>::empty()) =~= t);
    } else {
        let st = scan(line);
        let w = if st.cur.len() > 0 { st.done.push(st.cur) } else { st.done };
        assert(forall|i: int| 0 <= i < w.len() ==> (#[trigger] w[i]).len() > 0);
        assert forall|i: int| 0 <= i < t.len() - 1 implies (#[trigger] t[i]).len() > 0 by {
            assert(t[i] == w[i]);
        }
        lemma_scan_join(t);
        if t.last().len() > 0 {
            assert(t.drop_last().push(t.last()) =~= t);
        } else {
            if t.len() == 1 {
                assert(t =~= seq![Seq::<char>::empty()]);
            }
            assert(t.drop_last().push(Seq::<char>::empty()) =~= t);
        }
    }
}

} // verus!
