//! Line-by-line differences between two texts, shown on failure pages.
use vstd::prelude::*;

use crate::text::{join_lines, join_with_newlines, lines_of, push_str, split_lines, views};

verus! {

/// The diff entries for line `i` of two texts split into lines: the common
/// line prefixed with two spaces, or the expected line prefixed with `- `
/// followed by the received line prefixed with `+ `, each where it exists.
pub open spec fn diff_entries_at(e: Seq<Seq<char>>, s: Seq<Seq<char>>, i: int) -> Seq<Seq<char>> {
    if i < e.len() && i < s.len() && e[i] == s[i] {
        seq![seq![' ', ' '] + e[i]]
    } else {
        (if i < e.len() {
            seq![seq!['-', ' '] + e[i]]
        } else {
            Seq::empty()
        }) + (if i < s.len() {
            seq![seq!['+', ' '] + s[i]]
        } else {
            Seq::empty()
        })
    }
}

/// The diff entries for the first `n` lines.
pub open spec fn diff_entries(e: Seq<Seq<char>>, s: Seq<Seq<char>>, n: nat) -> Seq<Seq<char>>
    decreases n,
{
    if n == 0 {
        Seq::empty()
    } else {
        diff_entries(e, s, (n - 1) as nat) + diff_entries_at(e, s, n - 1)
    }
}

/// The larger of two lengths.
pub open spec fn max_len(a: nat, b: nat) -> nat {
    if a >= b {
        a
    } else {
        b
    }
}

/// The text of the diff between an expected and a received text.
pub open spec fn diff_text(expected: Seq<char>, received: Seq<char>) -> Seq<char> {
    let e = lines_of(expected);
    let s = lines_of(received);
    join_lines(diff_entries(e, s, max_len(e.len(), s.len())))
}

fn prefixed(prefix: &str, line: &String) -> (r: String)
    ensures
        r@ == prefix@ + line@,
{
    let mut r = String::new();
    push_str(&mut r, prefix);
    push_str(&mut r, line.as_str());
    r
}

/// Formats the line-by-line difference between `expected` and `received`.
/// There is none when the two texts are equal.
pub fn fmt_diff(expected: &str, received: &str) -> (r: Option<String>)
    ensures
        r is None <==> expected@ == received@,
        r matches Some(d) ==> d@ == diff_text(expected@, received@),
{
    let e = split_lines(expected);
    let s = split_lines(received);
    let n = if e.len() >= s.len() {
        e.len()
    } else {
        s.len()
    };
    let ghost ev = views(e@);
    let ghost sv = views(s@);
    let mut entries: Vec<String> = Vec::new();
    let mut same = true;
    let mut i: usize = 0;
    while i < n
        invariant
            ev == views(e@),
            sv == views(s@),
            ev == lines_of(expected@),
            sv == lines_of(received@),
            n == max_len(ev.len(), sv.len()),
            i <= n,
            views(entries@) == diff_entries(ev, sv, i as nat),
            same <==> (forall|j: int|
                0 <= j < i ==> j < ev.len() && j < sv.len() && ev[j] == sv[j]),
        decreases n - i,
    {
        let ghost before = entries@;
        assert(i < e@.len() ==> ev[i as int] == e@[i as int]@);
        assert(i < s@.len() ==> sv[i as int] == s@[i as int]@);
        if i < e.len() && i < s.len() && e[i] == s[i] {
            let line = prefixed("  ", &e[i]);
            proof {
                reveal_strlit("  ");
                assert("  "@ =~= seq![' ', ' ']);
                crate::text::lemma_views_push(entries@, line);
            }
            entries.push(line);
        } else {
            same = false;
            if i < e.len() {
                let line = prefixed("- ", &e[i]);
                proof {
                    reveal_strlit("- ");
                    assert("- "@ =~= seq!['-', ' ']);
                    crate::text::lemma_views_push(entries@, line);
                }
                entries.push(line);
            }
            if i < s.len() {
                let line = prefixed("+ ", &s[i]);
                proof {
                    reveal_strlit("+ ");
                    assert("+ "@ =~= seq!['+', ' ']);
                    crate::text::lemma_views_push(entries@, line);
                }
                entries.push(line);
            }
        }
        assert(views(entries@) =~= views(before) + diff_entries_at(ev, sv, i as int));
        i = i + 1;
    }
    if same {
        proof {
            assert(ev.len() == sv.len());
            assert(ev =~= sv);
            crate::text::lemma_lines_injective(expected@, received@);
        }
        None
    } else {
        proof {
            if expected@ == received@ {
                let j = choose|j: int| 0 <= j < n && !(j < ev.len() && j < sv.len() && ev[j] == sv[j]);
                assert(false);
            }
        }
        Some(join_with_newlines(&entries))
    }
}

} // verus!
