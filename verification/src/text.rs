//! Small text-building helpers used when rendering failure reports.
use vstd::prelude::*;

verus! {

/// The character for a decimal digit.
pub open spec fn digit_char(d: nat) -> char {
    if d == 0 {
        '0'
    } else if d == 1 {
        '1'
    } else if d == 2 {
        '2'
    } else if d == 3 {
        '3'
    } else if d == 4 {
        '4'
    } else if d == 5 {
        '5'
    } else if d == 6 {
        '6'
    } else if d == 7 {
        '7'
    } else if d == 8 {
        '8'
    } else {
        '9'
    }
}

/// The decimal representation of a natural number, without leading zeros.
pub open spec fn decimal(n: nat) -> Seq<char>
    decreases n,
{
    if n < 10 {
        seq![digit_char(n)]
    } else {
        decimal(n / 10).push(digit_char(n % 10))
    }
}

/// Appends one character to a string.
#[verifier::external_body]
pub(crate) fn push_char(s: &mut String, c: char)
    ensures
        final(s)@ == old(s)@.push(c),
{
    s.push(c)
}

/// Appends a string slice to a string.
pub fn push_str(s: &mut String, t: &str)
    ensures
        final(s)@ == old(s)@ + t@,
{
    s.append(t);
}

fn digit(d: usize) -> (c: char)
    requires
        d < 10,
    ensures
        c == digit_char(d as nat),
{
    if d == 0 {
        '0'
    } else if d == 1 {
        '1'
    } else if d == 2 {
        '2'
    } else if d == 3 {
        '3'
    } else if d == 4 {
        '4'
    } else if d == 5 {
        '5'
    } else if d == 6 {
        '6'
    } else if d == 7 {
        '7'
    } else if d == 8 {
        '8'
    } else {
        '9'
    }
}

/// Appends the decimal representation of `n` to a string.
pub fn push_decimal(s: &mut String, n: usize)
    ensures
        final(s)@ == old(s)@ + decimal(n as nat),
    decreases n,
{
    if n >= 10 {
        push_decimal(s, n / 10);
    }
    let c = digit(n % 10);
    push_char(s, c);
    assert(final(s)@ =~= old(s)@ + decimal(n as nat));
}

/// Whether a character occurs in a sequence of characters.
pub open spec fn has_char(s: Seq<char>, c: char) -> bool {
    exists|i: int| 0 <= i < s.len() && s[i] == c
}

/// Checks whether a string contains a given character.
pub fn contains_char(s: &str, c: char) -> (r: bool)
    ensures
        r == has_char(s@, c),
{
    let n = s.unicode_len();
    let mut i: usize = 0;
    while i < n
        invariant
            n == s@.len(),
            i <= n,
            forall|j: int| 0 <= j < i ==> s@[j] != c,
        decreases n - i,
    {
        if s.get_char(i) == c {
            return true;
        }
        i = i + 1;
    }
    false
}

/// Splits a sequence of characters into the completed lines and the line
/// still being read.
pub open spec fn split_acc(s: Seq<char>) -> (Seq<Seq<char>>, Seq<char>)
    decreases s.len(),
{
    if s.len() == 0 {
        (Seq::empty(), Seq::empty())
    } else {
        let prev = split_acc(s.drop_last());
        if s.last() == '\n' {
            (prev.0.push(prev.1), Seq::empty())
        } else {
            (prev.0, prev.1.push(s.last()))
        }
    }
}

/// The lines of a text, split at every line feed. A text with `k` line feeds
/// has `k + 1` lines.
pub open spec fn lines_of(s: Seq<char>) -> Seq<Seq<char>> {
    split_acc(s).0.push(split_acc(s).1)
}

/// Joins lines with line feeds between them.
pub open spec fn join_lines(ls: Seq<Seq<char>>) -> Seq<char>
    decreases ls.len(),
{
    if ls.len() == 0 {
        Seq::empty()
    } else if ls.len() == 1 {
        ls[0]
    } else {
        join_lines(ls.drop_last()) + seq!['\n'] + ls.last()
    }
}

/// The views of a vector of strings.
pub open spec fn views(v: Seq<String>) -> Seq<Seq<char>> {
    v.map_values(|x: String| x@)
}

/// Splits a string into its lines at every line feed.
pub fn split_lines(s: &str) -> (r: Vec<String>)
    ensures
        views(r@) == lines_of(s@),
{
    let n = s.unicode_len();
    let mut done: Vec<String> = Vec::new();
    let mut cur = String::new();
    let mut i: usize = 0;
    while i < n
        invariant
            n == s@.len(),
            i <= n,
            (views(done@), cur@) == split_acc(s@.take(i as int)),
        decreases n - i,
    {
        let c = s.get_char(i);
        assert(s@.take(i + 1).drop_last() =~= s@.take(i as int));
        if c == '\n' {
            let ghost old_done = done@;
            done.push(cur);
            cur = String::new();
            assert(views(done@) =~= views(old_done).push(split_acc(s@.take(i as int)).1));
        } else {
            push_char(&mut cur, c);
        }
        i = i + 1;
    }
    assert(s@.take(n as int) =~= s@);
    let ghost old_done = done@;
    done.push(cur);
    assert(views(done@) =~= views(old_done).push(split_acc(s@).1));
    done
}

/// Joins strings with line feeds between them.
pub fn join_with_newlines(ls: &Vec<String>) -> (r: String)
    ensures
        r@ == join_lines(views(ls@)),
{
    let mut r = String::new();
    let mut i: usize = 0;
    while i < ls.len()
        invariant
            i <= ls@.len(),
            r@ == join_lines(views(ls@).take(i as int)),
        decreases ls@.len() - i,
    {
        assert(views(ls@).take(i + 1).drop_last() =~= views(ls@).take(i as int));
        if i != 0 {
            push_char(&mut r, '\n');
        }
        push_str(&mut r, ls[i].as_str());
        assert(views(ls@).take(i + 1).last() == ls@[i as int]@);
        if i == 0 {
            assert(r@ =~= join_lines(views(ls@).take(1)));
        } else {
            assert(r@ =~= join_lines(views(ls@).take(i + 1)));
        }
        i = i + 1;
    }
    assert(views(ls@).take(ls@.len() as int) =~= views(ls@));
    r
}


proof fn lemma_join_push(x: Seq<Seq<char>>, a: Seq<char>)
    ensures
        x.len() == 0 ==> join_lines(x.push(a)) == a,
        x.len() > 0 ==> join_lines(x.push(a)) == join_lines(x) + seq!['\n'] + a,
{
    assert(x.push(a).drop_last() =~= x);
    if x.len() == 0 {
        assert(x.push(a)[0] == a);
    }
}

/// Joining the lines of a text gives the text back.
pub proof fn lemma_join_lines_of(s: Seq<char>)
    ensures
        join_lines(lines_of(s)) == s,
    decreases s.len(),
{
    let acc = split_acc(s);
    if s.len() == 0 {
        lemma_join_push(acc.0, acc.1);
        assert(join_lines(lines_of(s)) =~= s);
    } else {
        let sp = s.drop_last();
        let prev = split_acc(sp);
        assert(s =~= sp.push(s.last()));
        lemma_join_lines_of(sp);
        lemma_join_push(prev.0, prev.1);
        if s.last() == '\n' {
            lemma_join_push(prev.0.push(prev.1), Seq::empty());
            assert(join_lines(lines_of(s)) =~= s);
        } else {
            lemma_join_push(prev.0, prev.1.push(s.last()));
            assert(join_lines(lines_of(s)) =~= s);
        }
    }
}

/// Two texts with the same lines are equal.
pub proof fn lemma_lines_injective(a: Seq<char>, b: Seq<char>)
    requires
        lines_of(a) == lines_of(b),
    ensures
        a == b,
{
    lemma_join_lines_of(a);
    lemma_join_lines_of(b);
}

/// The views of strings after a push.
pub proof fn lemma_views_push(v: Seq<String>, x: String)
    ensures
        views(v.push(x)) == views(v).push(x@),
{
    assert(views(v.push(x)) =~= views(v).push(x@));
}

} // verus!
