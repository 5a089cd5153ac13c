//! Brace-counting re-indentation of generated source text.
//!
//! This is a lexical heuristic, not a parser: braces inside string or
//! template literals are counted like any other brace.
use vstd::prelude::*;

use crate::text::{char_is_white_space, chars_of, is_white_space, string_of_chars};

verus! {

/// Index of the first line feed in `s`, or `s.len()` when there is none.
pub open spec fn first_newline(s: Seq<char>) -> nat
    decreases s.len(),
{
    if s.len() == 0 || s[0] == '\n' {
        0
    } else {
        1 + first_newline(s.drop_first())
    }
}

/// The lines of `s`: the pieces between line feeds, where a final line feed
/// ends the last line instead of starting an empty one.
pub open spec fn lines(s: Seq<char>) -> Seq<Seq<char>>
    decreases s.len(),
{
    if s.len() == 0 {
        seq![]
    } else {
        let k = first_newline(s) as int;
        if k < s.len() {
            seq![s.subrange(0, k)] + lines(s.subrange(k + 1, s.len() as int))
        } else {
            seq![s]
        }
    }
}

pub open spec fn trim_start(s: Seq<char>) -> Seq<char>
    decreases s.len(),
{
    if s.len() > 0 && is_white_space(s[0]) {
        trim_start(s.drop_first())
    } else {
        s
    }
}

pub open spec fn trim_end(s: Seq<char>) -> Seq<char>
    decreases s.len(),
{
    if s.len() > 0 && is_white_space(s.last()) {
        trim_end(s.drop_last())
    } else {
        s
    }
}

/// `s` without leading and trailing white space.
pub open spec fn trim(s: Seq<char>) -> Seq<char> {
    trim_end(trim_start(s))
}

/// The trimmed lines of `s`.
pub open spec fn trimmed_lines(s: Seq<char>) -> Seq<Seq<char>> {
    lines(s).map_values(|l: Seq<char>| trim(l))
}

/// A line that closes a block before it is printed.
pub open spec fn closes(t: Seq<char>) -> bool {
    t.len() > 0 && (t[0] == '}' || (t.last() == '}' && t[0] != '*'))
}

/// A line that opens a block after it is printed.
pub open spec fn opens(t: Seq<char>) -> bool {
    t.len() > 0 && t.last() == '{'
}

/// A continuation line (`: ...` or `? ...`) is printed one level deeper.
pub open spec fn continuation(t: Seq<char>) -> nat {
    if t.len() > 0 && (t[0] == ':' || t[0] == '?') {
        1
    } else {
        0
    }
}

/// The depth at which `t` is printed when the running depth is `depth`.
pub open spec fn depth_before(depth: nat, t: Seq<char>) -> nat {
    if closes(t) && depth > 0 {
        (depth - 1) as nat
    } else {
        depth
    }
}

/// The running depth after `t` has been printed.
pub open spec fn depth_after(depth: nat, t: Seq<char>) -> nat {
    depth_before(depth, t) + if opens(t) {
        1nat
    } else {
        0nat
    }
}

pub open spec fn spaces(n: nat) -> Seq<char> {
    Seq::new(n, |i: int| ' ')
}

/// How `t` is printed at depth `depth`: an empty line stays empty, any other
/// gets four spaces per level.
pub open spec fn print_line(depth: nat, t: Seq<char>) -> Seq<char> {
    if t.len() == 0 {
        seq!['\n']
    } else {
        spaces(4 * (depth_before(depth, t) + continuation(t))) + t + seq!['\n']
    }
}

/// The lines `ts` printed one after the other, starting at depth `depth`.
pub open spec fn print_lines(ts: Seq<Seq<char>>, depth: nat) -> Seq<char>
    decreases ts.len(),
{
    if ts.len() == 0 {
        seq![]
    } else {
        print_line(depth, ts[0]) + print_lines(ts.drop_first(), depth_after(depth, ts[0]))
    }
}

/// The re-indented form of `s`.
pub open spec fn formatted(s: Seq<char>) -> Seq<char> {
    print_lines(trimmed_lines(s), 0)
}


/// The views of a sequence of character vectors.
pub open spec fn views(v: Seq<Vec<char>>) -> Seq<Seq<char>> {
    v.map_values(|l: Vec<char>| l@)
}

proof fn lemma_first_newline(s: Seq<char>, m: int)
    requires
        0 <= m <= s.len(),
        forall|k: int| 0 <= k < m ==> s[k] != '\n',
        m == s.len() || s[m] == '\n',
    ensures
        first_newline(s) == m,
    decreases m,
{
    if m > 0 {
        lemma_first_newline(s.drop_first(), m - 1);
    }
}

proof fn lemma_trim_start_at(s: Seq<char>, a: int)
    requires
        0 <= a <= s.len(),
        forall|k: int| 0 <= k < a ==> is_white_space(s[k]),
        a == s.len() || !is_white_space(s[a]),
    ensures
        trim_start(s) == s.subrange(a, s.len() as int),
    decreases a,
{
    if a == 0 {
        assert(s.subrange(0, s.len() as int) =~= s);
    } else {
        lemma_trim_start_at(s.drop_first(), a - 1);
        assert(s.drop_first().subrange(a - 1, s.len() - 1) =~= s.subrange(a, s.len() as int));
    }
}

proof fn lemma_trim_end_at(s: Seq<char>, b: int)
    requires
        0 <= b <= s.len(),
        forall|k: int| b <= k < s.len() ==> is_white_space(s[k]),
        b == 0 || !is_white_space(s[b - 1]),
    ensures
        trim_end(s) == s.subrange(0, b),
    decreases s.len() - b,
{
    if b == s.len() {
        assert(s.subrange(0, b) =~= s);
    } else {
        lemma_trim_end_at(s.drop_last(), b);
        assert(s.drop_last().subrange(0, b) =~= s.subrange(0, b));
    }
}

fn copy_range(v: &Vec<char>, from: usize, to: usize) -> (r: Vec<char>)
    requires
        from <= to <= v@.len(),
    ensures
        r@ == v@.subrange(from as int, to as int),
{
    let mut r: Vec<char> = Vec::new();
    let mut i: usize = from;
    while i < to
        invariant
            from <= i <= to <= v@.len(),
            r@ == v@.subrange(from as int, i as int),
        decreases to - i,
    {
        r.push(v[i]);
        i = i + 1;
        assert(r@ =~= v@.subrange(from as int, i as int));
    }
    r
}

/// Splits `cs` into its lines.
fn split_lines(cs: &Vec<char>) -> (r: Vec<Vec<char>>)
    ensures
        views(r@) == lines(cs@),
{
    let n = cs.len();
    let mut r: Vec<Vec<char>> = Vec::new();
    let mut start: usize = 0;
    assert(cs@.subrange(0, n as int) =~= cs@);
    assert(views(r@) =~= seq![]);
    while start < n
        invariant
            n == cs@.len(),
            start <= n,
            lines(cs@) == views(r@) + lines(cs@.subrange(start as int, n as int)),
        decreases n - start,
    {
        let mut j: usize = start;
        while j < n && cs[j] != '\n'
            invariant
                start <= j <= n,
                n == cs@.len(),
                forall|k: int| start <= k < j ==> cs@[k] != '\n',
            decreases n - j,
        {
            j = j + 1;
        }
        let ghost rest = cs@.subrange(start as int, n as int);
        proof {
            lemma_first_newline(rest, j - start);
        }
        let line = copy_range(cs, start, j);
        let ghost before = views(r@);
        r.push(line);
        assert(views(r@) =~= before + seq![line@]);
        assert(rest.subrange(0, j - start) =~= line@);
        if j < n {
            assert(rest.subrange(j - start + 1, rest.len() as int) =~= cs@.subrange(
                j + 1,
                n as int,
            ));
            start = j + 1;
        } else {
            assert(rest =~= line@);
            assert(cs@.subrange(n as int, n as int) =~= seq![]);
            start = n;
        }
    }
    assert(cs@.subrange(n as int, n as int) =~= seq![]);
    assert(views(r@) + seq![] =~= views(r@));
    r
}

/// `l` without leading and trailing white space.
fn trim_line(l: &Vec<char>) -> (r: Vec<char>)
    ensures
        r@ == trim(l@),
{
    let n = l.len();
    let mut a: usize = 0;
    while a < n && char_is_white_space(l[a])
        invariant
            a <= n == l@.len(),
            forall|k: int| 0 <= k < a ==> is_white_space(l@[k]),
        decreases n - a,
    {
        a = a + 1;
    }
    let mut b: usize = n;
    while b > a && char_is_white_space(l[b - 1])
        invariant
            a <= b <= n == l@.len(),
            forall|k: int| b <= k < n ==> is_white_space(l@[k]),
        decreases b,
    {
        b = b - 1;
    }
    proof {
        lemma_trim_start_at(l@, a as int);
        let t = l@.subrange(a as int, n as int);
        lemma_trim_end_at(t, b - a);
        assert(t.subrange(0, b - a) =~= l@.subrange(a as int, b as int));
    }
    copy_range(l, a, b)
}

fn push_char_n(out: &mut Vec<char>, c: char, n: usize)
    ensures
        final(out)@ == old(out)@ + Seq::new(n as nat, |i: int| c),
{
    let mut k: usize = 0;
    while k < n
        invariant
            k <= n,
            out@ == old(out)@ + Seq::new(k as nat, |i: int| c),
        decreases n - k,
    {
        out.push(c);
        k = k + 1;
        assert(out@ =~= old(out)@ + Seq::new(k as nat, |i: int| c));
    }
}

fn push_indent(out: &mut Vec<char>, levels: usize)
    ensures
        final(out)@ == old(out)@ + spaces(4 * levels as nat),
{
    let mut k: usize = 0;
    while k < levels
        invariant
            k <= levels,
            out@ == old(out)@ + spaces(4 * k as nat),
        decreases levels - k,
    {
        push_char_n(out, ' ', 4);
        assert(spaces(4 * k as nat) + Seq::new(4, |i: int| ' ') =~= spaces(4 * (k + 1) as nat));
        k = k + 1;
    }
}

fn push_all(out: &mut Vec<char>, t: &Vec<char>)
    ensures
        final(out)@ == old(out)@ + t@,
{
    let mut k: usize = 0;
    while k < t.len()
        invariant
            k <= t@.len(),
            out@ == old(out)@ + t@.subrange(0, k as int),
        decreases t@.len() - k,
    {
        out.push(t[k]);
        k = k + 1;
        assert(out@ =~= old(out)@ + t@.subrange(0, k as int));
    }
    assert(t@.subrange(0, t@.len() as int) =~= t@);
}

/// Prints the already trimmed lines `ts`, each at the depth that the braces
/// before it give.
fn print_trimmed(ts: &Vec<Vec<char>>) -> (r: Vec<char>)
    ensures
        r@ == print_lines(views(ts@), 0),
{
    let n = ts.len();
    let ghost all = views(ts@);
    let mut out: Vec<char> = Vec::new();
    let mut depth: usize = 0;
    let mut i: usize = 0;
    assert(all.subrange(0, n as int) =~= all);
    while i < n
        invariant
            n == ts@.len(),
            all == views(ts@),
            i <= n,
            depth <= i,
            out@ + print_lines(all.subrange(i as int, n as int), depth as nat) == print_lines(
                all,
                0,
            ),
        decreases n - i,
    {
        let t = &ts[i];
        let tl = t.len();
        assert(t@ == all[i as int]);
        let ghost sub = all.subrange(i as int, n as int);
        assert(sub.drop_first() =~= all.subrange(i + 1, n as int));
        let ghost out0 = out@;
        let ghost d0 = depth as nat;
        let closing = tl > 0 && (t[0] == '}' || (t[tl - 1] == '}' && t[0] != '*'));
        if closing && depth > 0 {
            depth = depth - 1;
        }
        assert(depth as nat == depth_before(d0, t@));
        if tl > 0 {
            let extra: usize = if t[0] == ':' || t[0] == '?' {
                1
            } else {
                0
            };
            assert(extra as nat == continuation(t@));
            push_indent(&mut out, depth + extra);
            push_all(&mut out, t);
        }
        out.push('\n');
        assert(out@ =~= out0 + print_line(d0, t@));
        if tl > 0 && t[tl - 1] == '{' {
            depth = depth + 1;
        }
        i = i + 1;
    }
    assert(all.subrange(n as int, n as int) =~= seq![]);
    assert(out@ + seq![] =~= out@);
    out
}

/// Re-indents `s`: every line is trimmed, then printed with four spaces for
/// each block that is open at it, a block being opened by a line that ends in
/// `{` and closed by one that starts with `}` or ends with `}` (unless it
/// starts with `*`, as comment lines do). Lines starting with `:` or `?` go
/// one level deeper; empty lines stay empty; every line ends with a line feed.
pub fn reset_indentation(s: &str) -> (r: String)
    ensures
        r@ == formatted(s@),
{
    let cs = chars_of(s);
    let raw = split_lines(&cs);
    let mut ts: Vec<Vec<char>> = Vec::new();
    let mut i: usize = 0;
    while i < raw.len()
        invariant
            i <= raw@.len(),
            views(raw@) == lines(s@),
            cs@ == s@,
            views(ts@) == lines(s@).subrange(0, i as int).map_values(|l: Seq<char>| trim(l)),
        decreases raw@.len() - i,
    {
        let t = trim_line(&raw[i]);
        let ghost before = views(ts@);
        ts.push(t);
        assert(views(ts@) =~= before + seq![t@]);
        assert(raw@[i as int]@ == lines(s@)[i as int]);
        i = i + 1;
        assert(views(ts@) =~= lines(s@).subrange(0, i as int).map_values(|l: Seq<char>| trim(l)));
    }
    assert(lines(s@).subrange(0, i as int) =~= lines(s@));
    let out = print_trimmed(&ts);
    string_of_chars(&out)
}


pub open spec fn no_newline(s: Seq<char>) -> bool {
    forall|k: int| 0 <= k < s.len() ==> s[k] != '\n'
}

proof fn lemma_first_newline_bounds(s: Seq<char>)
    ensures
        first_newline(s) <= s.len(),
        forall|k: int| 0 <= k < first_newline(s) ==> s[k] != '\n',
        first_newline(s) < s.len() ==> s[first_newline(s) as int] == '\n',
    decreases s.len(),
{
    if s.len() > 0 && s[0] != '\n' {
        lemma_first_newline_bounds(s.drop_first());
        assert forall|k: int| 0 <= k < first_newline(s) implies s[k] != '\n' by {
            if k > 0 {
                assert(s[k] == s.drop_first()[k - 1]);
            }
        }
    }
}

proof fn lemma_lines_no_newline(s: Seq<char>)
    ensures
        forall|i: int| 0 <= i < lines(s).len() ==> no_newline(#[trigger] lines(s)[i]),
    decreases s.len(),
{
    if s.len() > 0 {
        let k = first_newline(s) as int;
        lemma_first_newline_bounds(s);
        if k < s.len() {
            let rest = s.subrange(k + 1, s.len() as int);
            lemma_lines_no_newline(rest);
            assert forall|i: int| 0 <= i < lines(s).len() implies no_newline(
                #[trigger] lines(s)[i],
            ) by {
                if i > 0 {
                    assert(lines(s)[i] == lines(rest)[i - 1]);
                }
            }
        }
    }
}

proof fn lemma_trim_no_newline(s: Seq<char>)
    requires
        no_newline(s),
    ensures
        no_newline(trim(s)),
{
    lemma_trim_start_suffix(s);
    let t = trim_start(s);
    assert(no_newline(t)) by {
        assert forall|k: int| 0 <= k < t.len() implies t[k] != '\n' by {
            assert(t[k] == s[k + s.len() - t.len()]);
        }
    }
    lemma_trim_end_prefix(t);
}

proof fn lemma_trim_start_suffix(s: Seq<char>)
    ensures
        trim_start(s).len() <= s.len(),
        trim_start(s) == s.subrange(s.len() - trim_start(s).len(), s.len() as int),
        trim_start(s).len() == 0 || !is_white_space(trim_start(s)[0]),
    decreases s.len(),
{
    if s.len() > 0 && is_white_space(s[0]) {
        lemma_trim_start_suffix(s.drop_first());
        let n = trim_start(s).len();
        assert(s.drop_first().subrange(s.len() - 1 - n, s.len() - 1) =~= s.subrange(
            s.len() - n,
            s.len() as int,
        ));
    } else {
        assert(s.subrange(0, s.len() as int) =~= s);
    }
}

proof fn lemma_trim_end_prefix(s: Seq<char>)
    ensures
        trim_end(s).len() <= s.len(),
        trim_end(s) == s.subrange(0, trim_end(s).len() as int),
        trim_end(s).len() == 0 || !is_white_space(trim_end(s).last()),
        no_newline(s) ==> no_newline(trim_end(s)),
    decreases s.len(),
{
    if s.len() > 0 && is_white_space(s.last()) {
        lemma_trim_end_prefix(s.drop_last());
        let n = trim_end(s).len();
        assert(s.drop_last().subrange(0, n as int) =~= s.subrange(0, n as int));
    } else {
        assert(s.subrange(0, s.len() as int) =~= s);
    }
}

proof fn lemma_trim_idempotent(s: Seq<char>)
    ensures
        trim(trim(s)) == trim(s),
{
    let y = trim_start(s);
    lemma_trim_start_suffix(s);
    lemma_trim_end_prefix(y);
    let z = trim_end(y);
    if z.len() > 0 {
        assert(z[0] == y[0]);
    }
}

proof fn lemma_trim_spaces(n: nat, x: Seq<char>)
    ensures
        trim_start(spaces(n) + x) == trim_start(x),
    decreases n,
{
    if n > 0 {
        assert((spaces(n) + x)[0] == ' ');
        assert((spaces(n) + x).drop_first() =~= spaces((n - 1) as nat) + x);
        lemma_trim_spaces((n - 1) as nat, x);
    } else {
        assert(spaces(n) + x =~= x);
    }
}

proof fn lemma_lines_cons(x: Seq<char>, rest: Seq<char>)
    requires
        no_newline(x),
    ensures
        lines(x + seq!['\n'] + rest) == seq![x] + lines(rest),
{
    let s = x + seq!['\n'] + rest;
    lemma_first_newline(s, x.len() as int);
    assert(s.subrange(0, x.len() as int) =~= x);
    assert(s.subrange(x.len() + 1int, s.len() as int) =~= rest);
}

proof fn lemma_print_lines_lines(ts: Seq<Seq<char>>, depth: nat)
    requires
        forall|i: int| 0 <= i < ts.len() ==> no_newline(#[trigger] ts[i]),
    ensures
        lines(print_lines(ts, depth)).map_values(|l: Seq<char>| trim(l)) == ts.map_values(
            |l: Seq<char>| trim(l),
        ),
    decreases ts.len(),
{
    if ts.len() == 0 {
        assert(lines(print_lines(ts, depth)) =~= seq![]);
        assert(ts.map_values(|l: Seq<char>| trim(l)) =~= seq![]);
    } else {
        let t = ts[0];
        let tail = ts.drop_first();
        assert(forall|i: int| 0 <= i < tail.len() ==> tail[i] == ts[i + 1]);
        lemma_print_lines_lines(tail, depth_after(depth, t));
        let rest = print_lines(tail, depth_after(depth, t));
        let p = if t.len() == 0 {
            seq![]
        } else {
            spaces(4 * (depth_before(depth, t) + continuation(t))) + t
        };
        assert(no_newline(ts[0]));
        assert(no_newline(p));
        assert(print_line(depth, t) =~= p + seq!['\n']);
        assert(print_lines(ts, depth) =~= p + seq!['\n'] + rest);
        lemma_lines_cons(p, rest);
        if t.len() > 0 {
            lemma_trim_spaces(4 * (depth_before(depth, t) + continuation(t)), t);
        } else {
            assert(p =~= t);
        }
        assert(trim(p) == trim(t));
        let lhs = lines(print_lines(ts, depth)).map_values(|l: Seq<char>| trim(l));
        let rhs = ts.map_values(|l: Seq<char>| trim(l));
        assert(lines(print_lines(ts, depth)) == seq![p] + lines(rest));
        let ih_l = lines(rest).map_values(|l: Seq<char>| trim(l));
        let ih_r = tail.map_values(|l: Seq<char>| trim(l));
        assert(ih_l == ih_r);
        assert(ih_l.len() == lines(rest).len());
        assert(lhs.len() == rhs.len());
        assert forall|i: int| 0 <= i < lhs.len() implies lhs[i] == rhs[i] by {
            if i > 0 {
                assert(lines(print_lines(ts, depth))[i] == lines(rest)[i - 1]);
                assert(lhs[i] == ih_l[i - 1]);
                assert(rhs[i] == ih_r[i - 1]);
            } else {
                assert(lhs[0] == trim(p));
            }
        }
        assert(lhs =~= rhs);
    }
}

/// Formatting is idempotent: re-indenting text that is already re-indented
/// changes nothing.
pub proof fn lemma_reset_indentation_idempotent(s: Seq<char>)
    ensures
        formatted(formatted(s)) == formatted(s),
{
    let ts = trimmed_lines(s);
    lemma_lines_no_newline(s);
    assert forall|i: int| 0 <= i < ts.len() implies no_newline(#[trigger] ts[i]) by {
        lemma_trim_no_newline(lines(s)[i]);
    }
    lemma_print_lines_lines(ts, 0);
    assert forall|i: int| 0 <= i < ts.len() implies #[trigger] trim(ts[i]) == ts[i] by {
        lemma_trim_idempotent(lines(s)[i]);
    }
    assert(ts.map_values(|l: Seq<char>| trim(l)) =~= ts);
}

} // verus!
