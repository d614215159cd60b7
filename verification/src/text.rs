//! Character-sequence helpers shared by the template pipeline.
//!
//! Strings are handled as sequences of `char`: a `&str` is copied into a
//! `Vec<char>`, worked on, and turned back into a `String` at the end.

use vstd::prelude::*;

verus! {

// ── Specifications ─────────────────────────────────────────────────────

/// `p` occurs in `s` starting at position `i`.
pub open spec fn occurs_at(s: Seq<char>, p: Seq<char>, i: int) -> bool {
    0 <= i && i + p.len() <= s.len() && s.subrange(i, i + p.len()) == p
}

/// `s` begins with `p`.
pub open spec fn starts_with(s: Seq<char>, p: Seq<char>) -> bool {
    occurs_at(s, p, 0)
}

/// `p` occurs somewhere in `s`.
pub open spec fn has_substring(s: Seq<char>, p: Seq<char>) -> bool {
    exists|i: int| occurs_at(s, p, i)
}

/// Every non-overlapping occurrence of the non-empty pattern `p` in `s`,
/// found from left to right, replaced by `r`.
pub open spec fn replace_all(s: Seq<char>, p: Seq<char>, r: Seq<char>) -> Seq<char>
    decreases s.len(),
{
    if s.len() == 0 || p.len() == 0 {
        s
    } else if starts_with(s, p) {
        r + replace_all(s.skip(p.len() as int), p, r)
    } else {
        seq![s[0]] + replace_all(s.skip(1), p, r)
    }
}

/// Unicode `White_Space` characters, the ones that `char::is_whitespace` accepts.
pub open spec fn is_white_space(c: char) -> bool {
    let u = c as u32;
    ||| 0x9 <= u <= 0xd
    ||| u == 0x20
    ||| u == 0x85
    ||| u == 0xa0
    ||| u == 0x1680
    ||| 0x2000 <= u <= 0x200a
    ||| u == 0x2028
    ||| u == 0x2029
    ||| u == 0x202f
    ||| u == 0x205f
    ||| u == 0x3000
}

/// `s` without its leading white space.
pub open spec fn trim_start(s: Seq<char>) -> Seq<char>
    decreases s.len(),
{
    if s.len() > 0 && is_white_space(s[0]) {
        trim_start(s.skip(1))
    } else {
        s
    }
}

/// `s` without its trailing white space.
pub open spec fn trim_end(s: Seq<char>) -> Seq<char>
    decreases s.len(),
{
    if s.len() > 0 && is_white_space(s.last()) {
        trim_end(s.drop_last())
    } else {
        s
    }
}

/// `s` without leading and trailing white space (`str::trim`).
pub open spec fn trim(s: Seq<char>) -> Seq<char> {
    trim_end(trim_start(s))
}

/// Number of characters of `s` before the first `c` (all of `s` when it has none).
pub open spec fn len_before(s: Seq<char>, c: char) -> nat
    decreases s.len(),
{
    if s.len() == 0 || s[0] == c {
        0
    } else {
        1 + len_before(s.skip(1), c)
    }
}

/// A line without one trailing carriage return.
pub open spec fn strip_cr(l: Seq<char>) -> Seq<char> {
    if l.len() > 0 && l.last() == '\r' {
        l.drop_last()
    } else {
        l
    }
}

/// The lines of `s` as `str::lines` yields them: split at each `'\n'`,
/// a `'\r'` right before a `'\n'` dropped, and no empty line after a final `'\n'`.
pub open spec fn lines_of(s: Seq<char>) -> Seq<Seq<char>>
    decreases s.len(),
{
    if s.len() == 0 {
        seq![]
    } else {
        let n = len_before(s, '\n');
        if n >= s.len() {
            seq![s]
        } else {
            seq![strip_cr(s.take(n as int))] + lines_of(s.skip(n + 1 as int))
        }
    }
}

/// The pieces of `ls` with `sep` between each two of them.
pub open spec fn join(ls: Seq<Seq<char>>, sep: Seq<char>) -> Seq<char>
    decreases ls.len(),
{
    if ls.len() == 0 {
        seq![]
    } else if ls.len() == 1 {
        ls[0]
    } else {
        join(ls.drop_last(), sep) + sep + ls.last()
    }
}

/// The character views of a sequence of vectors.
pub open spec fn views(v: Seq<Vec<char>>) -> Seq<Seq<char>> {
    v.map_values(|x: Vec<char>| x@)
}

// ── Lemmas ─────────────────────────────────────────────────────────────

/// `len_before` stops at the first `c`, or at the end.
pub proof fn lemma_len_before_bound(s: Seq<char>, c: char)
    ensures
        len_before(s, c) <= s.len(),
        len_before(s, c) < s.len() ==> s[len_before(s, c) as int] == c,
        forall|k: int| 0 <= k < len_before(s, c) ==> s[k] != c,
    decreases s.len(),
{
    if s.len() > 0 && s[0] != c {
        lemma_len_before_bound(s.skip(1), c);
        assert forall|k: int| 0 <= k < len_before(s, c) implies s[k] != c by {
            if k > 0 {
                assert(s[k] == s.skip(1)[k - 1]);
            }
        }
    }
}

/// `len_before` is the position of the first `c`.
pub proof fn lemma_len_before_at(s: Seq<char>, c: char, n: int)
    requires
        0 <= n <= s.len(),
        n < s.len() ==> s[n] == c,
        forall|k: int| 0 <= k < n ==> s[k] != c,
    ensures
        len_before(s, c) == n,
    decreases n,
{
    if n > 0 {
        assert forall|k: int| 0 <= k < n - 1 implies s.skip(1)[k] != c by {
            assert(s.skip(1)[k] == s[k + 1]);
        }
        lemma_len_before_at(s.skip(1), c, n - 1);
    }
}

/// With no occurrence of `p`, `replace_all` changes nothing.
pub proof fn lemma_replace_absent(s: Seq<char>, p: Seq<char>, r: Seq<char>)
    requires
        p.len() > 0,
        !has_substring(s, p),
    ensures
        replace_all(s, p, r) == s,
    decreases s.len(),
{
    if s.len() > 0 {
        assert(!occurs_at(s, p, 0));
        assert(!has_substring(s.skip(1), p)) by {
            if exists|i: int| occurs_at(s.skip(1), p, i) {
                let i = choose|i: int| occurs_at(s.skip(1), p, i);
                assert(s.subrange(i + 1, i + 1 + p.len()) == s.skip(1).subrange(i, i + p.len()));
                assert(occurs_at(s, p, i + 1));
            }
        }
        lemma_replace_absent(s.skip(1), p, r);
        assert(seq![s[0]] + s.skip(1) == s);
    }
}

/// When `p` occurs in `s`, the replacement text occurs in the result.
pub proof fn lemma_replace_contains(s: Seq<char>, p: Seq<char>, r: Seq<char>)
    requires
        p.len() > 0,
        has_substring(s, p),
    ensures
        has_substring(replace_all(s, p, r), r),
    decreases s.len(),
{
    let out = replace_all(s, p, r);
    if starts_with(s, p) {
        assert(out.subrange(0, r.len() as int) == r);
        assert(occurs_at(out, r, 0));
    } else {
        let i = choose|i: int| occurs_at(s, p, i);
        assert(i != 0);
        assert(s.skip(1).subrange(i - 1, i - 1 + p.len()) == s.subrange(i, i + p.len()));
        assert(occurs_at(s.skip(1), p, i - 1));
        lemma_replace_contains(s.skip(1), p, r);
        let rest = replace_all(s.skip(1), p, r);
        let j = choose|j: int| occurs_at(rest, r, j);
        assert(out == seq![s[0]] + rest);
        assert(out.subrange(j + 1, j + 1 + r.len()) == rest.subrange(j, j + r.len()));
        assert(occurs_at(out, r, j + 1));
    }
}

/// `x` and `y` have no character in common.
pub open spec fn disjoint_chars(x: Seq<char>, y: Seq<char>) -> bool {
    forall|i: int, j: int| 0 <= i < x.len() && 0 <= j < y.len() ==> x[i] != y[j]
}

/// An occurrence of `q` at `i` in `t`, for a `q` sharing no character with `r`,
/// lies in the part of `t` after an `r` at its start.
proof fn lemma_occurrence_after(t: Seq<char>, r: Seq<char>, q: Seq<char>, rest: Seq<char>, i: int)
    requires
        q.len() > 0,
        t == r + rest,
        disjoint_chars(r, q),
        occurs_at(t, q, i),
    ensures
        i >= r.len(),
        occurs_at(rest, q, i - r.len()),
{
    if i < r.len() {
        assert(t[i] == r[i]);
        assert(t.subrange(i, i + q.len())[0] == q[0]);
    }
    assert(rest.subrange(i - r.len(), i - r.len() + q.len()) == t.subrange(i, i + q.len()));
}

/// While the result shows only characters of `q`, which `r` does not use, it
/// copies its input: the first `n` characters of `replace_all(t, p, r)` are those of `t`.
proof fn lemma_replace_prefix(t: Seq<char>, p: Seq<char>, r: Seq<char>, q: Seq<char>, n: int)
    requires
        p.len() > 0,
        r.len() > 0,
        disjoint_chars(r, q),
        0 <= n <= replace_all(t, p, r).len(),
        forall|k: int| 0 <= k < n ==> q.contains(#[trigger] replace_all(t, p, r)[k]),
    ensures
        n <= t.len(),
        replace_all(t, p, r).take(n) == t.take(n),
    decreases t.len(),
{
    let out = replace_all(t, p, r);
    if n > 0 {
        if t.len() == 0 {
        } else if starts_with(t, p) {
            assert(out[0] == r[0]);
            assert(q.contains(out[0]));
            let j = choose|j: int| 0 <= j < q.len() && q[j] == out[0];
            assert(r[0] != q[j]);
        } else {
            let rest = replace_all(t.skip(1), p, r);
            assert(out == seq![t[0]] + rest);
            assert forall|k: int| 0 <= k < n - 1 implies q.contains(#[trigger] rest[k]) by {
                assert(rest[k] == out[k + 1]);
            }
            lemma_replace_prefix(t.skip(1), p, r, q, n - 1);
            assert(out.take(n) == seq![t[0]] + rest.take(n - 1));
            assert(t.take(n) == seq![t[0]] + t.skip(1).take(n - 1));
        }
    }
}

/// Dropping a prefix keeps the absence of an occurrence.
proof fn lemma_absent_skip(s: Seq<char>, q: Seq<char>, m: int)
    requires
        0 <= m <= s.len(),
        !has_substring(s, q),
    ensures
        !has_substring(s.skip(m), q),
{
    if has_substring(s.skip(m), q) {
        let i = choose|i: int| occurs_at(s.skip(m), q, i);
        assert(s.subrange(i + m, i + m + q.len()) == s.skip(m).subrange(i, i + q.len()));
        assert(occurs_at(s, q, i + m));
    }
}

/// A non-empty replacement that shares no character with `q` leaves no
/// occurrence of `q`, when `q` is the pattern itself or does not occur in the input.
pub proof fn lemma_replace_avoids(s: Seq<char>, p: Seq<char>, r: Seq<char>, q: Seq<char>)
    requires
        p.len() > 0,
        q.len() > 0,
        r.len() > 0,
        disjoint_chars(r, q),
        q == p || !has_substring(s, q),
    ensures
        !has_substring(replace_all(s, p, r), q),
    decreases s.len(),
{
    let out = replace_all(s, p, r);
    if s.len() == 0 {
        assert(out.len() == 0);
        assert forall|i: int| !occurs_at(out, q, i) by {}
    } else if starts_with(s, p) {
        let rest = replace_all(s.skip(p.len() as int), p, r);
        if q != p {
            lemma_absent_skip(s, q, p.len() as int);
        }
        lemma_replace_avoids(s.skip(p.len() as int), p, r, q);
        assert forall|i: int| !occurs_at(out, q, i) by {
            if occurs_at(out, q, i) {
                lemma_occurrence_after(out, r, q, rest, i);
            }
        }
    } else {
        let rest = replace_all(s.skip(1), p, r);
        if q != p {
            lemma_absent_skip(s, q, 1);
        }
        lemma_replace_avoids(s.skip(1), p, r, q);
        assert forall|i: int| !occurs_at(out, q, i) by {
            if occurs_at(out, q, i) {
                if i == 0 {
                    assert forall|k: int| 0 <= k < q.len() implies q.contains(#[trigger] out[k]) by {
                        assert(out[k] == out.subrange(0, q.len() as int)[k]);
                    }
                    lemma_replace_prefix(s, p, r, q, q.len() as int);
                    assert(s.subrange(0, q.len() as int) == out.subrange(0, q.len() as int));
                    assert(occurs_at(s, q, 0));
                } else {
                    assert(rest.subrange(i - 1, i - 1 + q.len()) == out.subrange(i, i + q.len()));
                    assert(occurs_at(rest, q, i - 1));
                }
            }
        }
    }
}

/// A line that `str::lines` gives back unchanged after joining: not empty,
/// and without `'\n'` or `'\r'`.
pub open spec fn plain_line(l: Seq<char>) -> bool {
    l.len() > 0 && !l.contains('\n') && !l.contains('\r')
}

/// Text without `'\r'`, without an empty line (`"\n\n"` or a leading `'\n'`).
pub open spec fn no_empty_lines(c: Seq<char>) -> bool {
    &&& !c.contains('\r')
    &&& !has_substring(c, seq!['\n', '\n'])
    &&& !(c.len() > 0 && c[0] == '\n')
}

/// Joining peels off the first piece.
pub proof fn lemma_join_front(ls: Seq<Seq<char>>, sep: Seq<char>)
    requires
        ls.len() >= 2,
    ensures
        join(ls, sep) == ls[0] + sep + join(ls.skip(1), sep),
    decreases ls.len(),
{
    if ls.len() > 2 {
        lemma_join_front(ls.drop_last(), sep);
        assert(ls.skip(1).drop_last() == ls.drop_last().skip(1));
        assert(ls.skip(1).last() == ls.last());
        assert(ls.drop_last()[0] == ls[0]);
        let mid = join(ls.drop_last().skip(1), sep);
        assert(join(ls, sep) == join(ls.drop_last(), sep) + sep + ls.last());
        assert(join(ls.skip(1), sep) == mid + sep + ls.last());
        assert((ls[0] + sep + mid) + sep + ls.last() == ls[0] + sep + (mid + sep + ls.last()));
    } else {
        assert(ls.drop_last().len() == 1);
        assert(ls.skip(1).len() == 1);
        assert(join(ls.drop_last(), sep) == ls[0]);
        assert(join(ls.skip(1), sep) == ls[1]);
        assert(join(ls, sep) == join(ls.drop_last(), sep) + sep + ls.last());
    }
}

/// Splitting joined plain lines gives them back.
pub proof fn lemma_lines_of_join(ls: Seq<Seq<char>>)
    requires
        forall|i: int| 0 <= i < ls.len() ==> plain_line(#[trigger] ls[i]),
    ensures
        lines_of(join(ls, seq!['\n'])) == ls,
    decreases ls.len(),
{
    if ls.len() == 1 {
        let l = ls[0];
        assert(plain_line(l));
        assert forall|k: int| 0 <= k < l.len() implies l[k] != '\n' by {
            if l[k] == '\n' {
                assert(l.contains('\n'));
            }
        }
        lemma_len_before_at(l, '\n', l.len() as int);
    } else if ls.len() >= 2 {
        let l = ls[0];
        let rest = ls.skip(1);
        lemma_join_front(ls, seq!['\n']);
        let s = join(ls, seq!['\n']);
        assert(plain_line(l));
        assert forall|k: int| 0 <= k < l.len() implies s[k] != '\n' by {
            assert(s[k] == l[k]);
            if l[k] == '\n' {
                assert(l.contains('\n'));
            }
        }
        assert(s[l.len() as int] == '\n');
        lemma_len_before_at(s, '\n', l.len() as int);
        assert(s.take(l.len() as int) == l);
        assert(l.last() != '\r') by {
            if l.last() == '\r' {
                assert(l.contains('\r'));
            }
        }
        assert(s.skip(l.len() + 1 as int) == join(rest, seq!['\n']));
        assert forall|i: int| 0 <= i < rest.len() implies plain_line(#[trigger] rest[i]) by {
            assert(rest[i] == ls[i + 1]);
        }
        lemma_lines_of_join(rest);
        assert(seq![l] + rest == ls);
    }
}

/// Text without `'\r'` and without empty lines splits into plain lines.
pub proof fn lemma_lines_plain(c: Seq<char>)
    requires
        no_empty_lines(c),
    ensures
        forall|i: int| 0 <= i < lines_of(c).len() ==> plain_line(#[trigger] lines_of(c)[i]),
    decreases c.len(),
{
    if c.len() > 0 {
        let n = len_before(c, '\n');
        lemma_len_before_bound(c, '\n');
        if n >= c.len() {
            assert(lines_of(c) == seq![c]);
            assert(!c.contains('\n')) by {
                if c.contains('\n') {
                    let k = choose|k: int| 0 <= k < c.len() && c[k] == '\n';
                    assert(c[k] != '\n');
                }
            }
        } else {
            let line = c.take(n as int);
            let rest = c.skip(n + 1 as int);
            assert(n > 0);
            assert(!line.contains('\n')) by {
                if line.contains('\n') {
                    let k = choose|k: int| 0 <= k < line.len() && line[k] == '\n';
                    assert(c[k] == line[k]);
                }
            }
            assert(!line.contains('\r')) by {
                if line.contains('\r') {
                    let k = choose|k: int| 0 <= k < line.len() && line[k] == '\r';
                    assert(c[k] == line[k]);
                    assert(c.contains('\r'));
                }
            }
            assert(line.last() != '\r') by {
                assert(line.contains(line.last()));
            }
            assert(strip_cr(line) == line);
            assert(!rest.contains('\r')) by {
                if rest.contains('\r') {
                    let k = choose|k: int| 0 <= k < rest.len() && rest[k] == '\r';
                    assert(c[k + n + 1] == rest[k]);
                    assert(c.contains('\r'));
                }
            }
            assert(!has_substring(rest, seq!['\n', '\n'])) by {
                if has_substring(rest, seq!['\n', '\n']) {
                    let k = choose|k: int| occurs_at(rest, seq!['\n', '\n'], k);
                    assert(c.subrange(k + n + 1, k + n + 3) == rest.subrange(k, k + 2));
                    assert(occurs_at(c, seq!['\n', '\n'], k + n + 1));
                }
            }
            assert(!(rest.len() > 0 && rest[0] == '\n')) by {
                if rest.len() > 0 && rest[0] == '\n' {
                    assert(c.subrange(n as int, n + 2 as int) == seq!['\n', '\n']);
                    assert(occurs_at(c, seq!['\n', '\n'], n as int));
                }
            }
            lemma_lines_plain(rest);
            assert(lines_of(c) == seq![line] + lines_of(rest));
            assert forall|i: int| 0 <= i < lines_of(c).len() implies plain_line(#[trigger] lines_of(c)[i]) by {
                if i > 0 {
                    assert(lines_of(c)[i] == lines_of(rest)[i - 1]);
                }
            }
        }
    }
}

/// Filtering keeps a sequence whose elements all pass.
pub proof fn lemma_filter_all<A>(ls: Seq<A>, p: spec_fn(A) -> bool)
    requires
        forall|i: int| 0 <= i < ls.len() ==> p(#[trigger] ls[i]),
    ensures
        ls.filter(p) == ls,
    decreases ls.len(),
{
    reveal(Seq::filter);
    if ls.len() > 0 {
        lemma_filter_all(ls.drop_last(), p);
        assert(ls.drop_last().push(ls.last()) == ls);
    }
}

/// `s` consists of white space only.
pub open spec fn all_white_space(s: Seq<char>) -> bool {
    forall|i: int| 0 <= i < s.len() ==> is_white_space(#[trigger] s[i])
}

proof fn lemma_trim_start_shape(s: Seq<char>)
    ensures
        trim_start(s).len() == 0 <==> all_white_space(s),
        trim_start(s).len() > 0 ==> !is_white_space(trim_start(s)[0]),
    decreases s.len(),
{
    if s.len() > 0 {
        if is_white_space(s[0]) {
            lemma_trim_start_shape(s.skip(1));
            if all_white_space(s.skip(1)) {
                assert forall|i: int| 0 <= i < s.len() implies is_white_space(#[trigger] s[i]) by {
                    if i > 0 {
                        assert(s[i] == s.skip(1)[i - 1]);
                    }
                }
            }
            if all_white_space(s) {
                assert forall|i: int| 0 <= i < s.skip(1).len() implies is_white_space(
                    #[trigger] s.skip(1)[i],
                ) by {
                    assert(s.skip(1)[i] == s[i + 1]);
                }
            }
        } else {
            assert(!is_white_space(s[0]));
        }
    }
}

proof fn lemma_trim_end_keeps(t: Seq<char>)
    requires
        t.len() > 0,
        !is_white_space(t[0]),
    ensures
        trim_end(t).len() > 0,
    decreases t.len(),
{
    if is_white_space(t.last()) {
        assert(t.len() >= 2);
        assert(t.drop_last()[0] == t[0]);
        lemma_trim_end_keeps(t.drop_last());
    }
}

/// Trimming leaves nothing exactly when the text is all white space.
pub proof fn lemma_trim_empty(s: Seq<char>)
    ensures
        trim(s).len() == 0 <==> all_white_space(s),
{
    lemma_trim_start_shape(s);
    if trim_start(s).len() > 0 {
        lemma_trim_end_keeps(trim_start(s));
    } else {
        assert(trim_end(trim_start(s)) == trim_start(s));
    }
}

// ── Executable helpers ─────────────────────────────────────────────────

/// Copies the characters of a string slice into a vector.
pub fn str_to_chars(s: &str) -> (r: Vec<char>)
    ensures
        r@ == s@,
{
    let mut r: Vec<char> = Vec::new();
    for c in it: s.chars()
        invariant
            r@ == it.seq().take(it.index() as int),
            it.seq() == s@,
    {
        r.push(c);
    }
    r
}

/// `String::push`: appends one character.
#[verifier::external_body]
fn string_push(s: &mut String, c: char)
    ensures
        final(s)@ == old(s)@.push(c),
{
    s.push(c);
}

/// Builds a `String` from a vector of characters.
pub fn chars_to_string(v: &Vec<char>) -> (r: String)
    ensures
        r@ == v@,
{
    let mut r = String::new();
    for i in 0..v.len()
        invariant
            r@ == v@.take(i as int),
    {
        string_push(&mut r, v[i]);
        assert(v@.take(i + 1) == v@.take(i as int).push(v@[i as int]));
    }
    assert(v@.take(v.len() as int) == v@);
    r
}

/// Appends the characters of `src` to `dst`.
pub fn extend_chars(dst: &mut Vec<char>, src: &Vec<char>)
    ensures
        final(dst)@ == old(dst)@ + src@,
{
    let ghost start = dst@;
    for i in 0..src.len()
        invariant
            dst@ == start + src@.take(i as int),
    {
        dst.push(src[i]);
        assert(src@.take(i + 1) == src@.take(i as int).push(src@[i as int]));
    }
    assert(src@.take(src.len() as int) == src@);
}

/// Copies the characters of `s` in `from..to`.
pub fn sub_chars(s: &Vec<char>, from: usize, to: usize) -> (r: Vec<char>)
    requires
        from <= to <= s.len(),
    ensures
        r@ == s@.subrange(from as int, to as int),
{
    let mut r: Vec<char> = Vec::new();
    let mut i = from;
    while i < to
        invariant
            from <= i <= to <= s.len(),
            r@ == s@.subrange(from as int, i as int),
        decreases to - i,
    {
        r.push(s[i]);
        assert(s@.subrange(from as int, i + 1) == s@.subrange(from as int, i as int).push(s@[i as int]));
        i = i + 1;
    }
    r
}

/// Whether two character vectors are equal.
pub fn chars_eq(a: &Vec<char>, b: &Vec<char>) -> (r: bool)
    ensures
        r == (a@ == b@),
{
    if a.len() != b.len() {
        return false;
    }
    for i in 0..a.len()
        invariant
            a.len() == b.len(),
            forall|k: int| 0 <= k < i ==> a@[k] == b@[k],
    {
        if a[i] != b[i] {
            return false;
        }
    }
    assert(a@ == b@);
    true
}

/// Whether `p` occurs in `s` at position `i`.
pub fn occurs_at_exec(s: &Vec<char>, p: &Vec<char>, i: usize) -> (r: bool)
    ensures
        r == occurs_at(s@, p@, i as int),
{
    if i > s.len() || p.len() > s.len() - i {
        return false;
    }
    for j in 0..p.len()
        invariant
            i + p.len() <= s.len(),
            forall|k: int| 0 <= k < j ==> s@[i + k] == p@[k],
    {
        if s[i + j] != p[j] {
            assert(s@.subrange(i as int, i + p.len())[j as int] != p@[j as int]);
            return false;
        }
    }
    assert(s@.subrange(i as int, i + p.len()) == p@);
    true
}

/// Whether `p` occurs anywhere in `s`.
pub fn has_substring_exec(s: &Vec<char>, p: &Vec<char>) -> (r: bool)
    ensures
        r == has_substring(s@, p@),
{
    if p.len() > s.len() {
        return false;
    }
    let last = s.len() - p.len();
    let mut i: usize = 0;
    loop
        invariant
            last + p.len() == s.len(),
            i <= last,
            forall|k: int| 0 <= k < i ==> !occurs_at(s@, p@, k),
        decreases last - i,
    {
        if occurs_at_exec(s, p, i) {
            return true;
        }
        if i == last {
            assert forall|k: int| !occurs_at(s@, p@, k) by {
                if 0 <= k < i {
                } else if k == i {
                } else {
                }
            }
            return false;
        }
        i = i + 1;
    }
}

/// `str::replace` on characters: every occurrence of the non-empty `p`,
/// from left to right and without overlap, replaced by `r`.
pub fn replace_all_exec(s: &Vec<char>, p: &Vec<char>, r: &Vec<char>) -> (out: Vec<char>)
    requires
        p@.len() > 0,
    ensures
        out@ == replace_all(s@, p@, r@),
{
    let mut out: Vec<char> = Vec::new();
    let mut i: usize = 0;
    assert(s@.skip(0) == s@);
    while i < s.len()
        invariant
            i <= s.len(),
            p@.len() > 0,
            out@ + replace_all(s@.skip(i as int), p@, r@) == replace_all(s@, p@, r@),
        decreases s.len() - i,
    {
        let ghost rest = s@.skip(i as int);
        if occurs_at_exec(s, p, i) {
            assert(rest.subrange(0, p@.len() as int) == s@.subrange(i as int, i + p@.len()));
            assert(rest.skip(p@.len() as int) == s@.skip(i + p@.len()));
            extend_chars(&mut out, r);
            i = i + p.len();
        } else {
            assert(!starts_with(rest, p@)) by {
                if rest.len() >= p@.len() {
                    assert(rest.subrange(0, p@.len() as int) == s@.subrange(i as int, i + p@.len()));
                }
            }
            assert(rest.skip(1) == s@.skip(i + 1));
            out.push(s[i]);
            i = i + 1;
        }
    }
    out
}

/// `char::is_whitespace`.
pub fn is_white_space_exec(c: char) -> (r: bool)
    ensures
        r == is_white_space(c),
{
    let u = c as u32;
    (0x9 <= u && u <= 0xd) || u == 0x20 || u == 0x85 || u == 0xa0 || u == 0x1680 || (0x2000 <= u
        && u <= 0x200a) || u == 0x2028 || u == 0x2029 || u == 0x202f || u == 0x205f || u == 0x3000
}

/// `str::trim` on characters.
pub fn trim_chars(s: &Vec<char>) -> (r: Vec<char>)
    ensures
        r@ == trim(s@),
{
    let mut a: usize = 0;
    assert(s@.skip(0) == s@);
    while a < s.len() && is_white_space_exec(s[a])
        invariant
            a <= s.len(),
            trim_start(s@.skip(a as int)) == trim_start(s@),
        decreases s.len() - a,
    {
        assert(s@.skip(a as int).skip(1) == s@.skip(a + 1));
        a = a + 1;
    }
    let ghost t = s@.skip(a as int);
    assert(trim_start(t) == t);
    let mut b: usize = s.len();
    assert(t.take(t.len() as int) == t);
    while b > a && is_white_space_exec(s[b - 1])
        invariant
            a <= b <= s.len(),
            t == s@.skip(a as int),
            trim_end(t.take(b - a)) == trim_end(t),
        decreases b,
    {
        assert(t.take(b - a).drop_last() == t.take(b - 1 - a));
        b = b - 1;
    }
    assert(trim_end(t.take(b - a)) == t.take(b - a));
    assert(t.take(b - a) == s@.subrange(a as int, b as int));
    sub_chars(s, a, b)
}

/// Drops one trailing carriage return.
pub fn strip_cr_exec(l: Vec<char>) -> (r: Vec<char>)
    ensures
        r@ == strip_cr(l@),
{
    let mut l = l;
    if l.len() > 0 && l[l.len() - 1] == '\r' {
        l.pop();
    }
    l
}

/// `str::lines` on characters.
pub fn split_lines(s: &Vec<char>) -> (r: Vec<Vec<char>>)
    ensures
        views(r@) == lines_of(s@),
{
    let mut acc: Vec<Vec<char>> = Vec::new();
    let mut j: usize = 0;
    assert(s@.skip(0) == s@);
    for i in 0..s.len()
        invariant
            j <= i,
            i <= s.len(),
            forall|k: int| j <= k < i ==> s@[k] != '\n',
            views(acc@) + lines_of(s@.skip(j as int)) == lines_of(s@),
    {
        if s[i] == '\n' {
            let ghost rest = s@.skip(j as int);
            proof {
                lemma_len_before_at(rest, '\n', i - j);
                assert(rest.take(i - j) == s@.subrange(j as int, i as int));
                assert(rest.skip(i - j + 1) == s@.skip(i + 1));
            }
            let line = strip_cr_exec(sub_chars(s, j, i));
            let ghost before = acc@;
            acc.push(line);
            assert(views(acc@) == views(before).push(line@));
            j = i + 1;
        }
    }
    let ghost rest = s@.skip(j as int);
    if j < s.len() {
        proof {
            lemma_len_before_at(rest, '\n', rest.len() as int);
        }
        let line = sub_chars(s, j, s.len());
        assert(line@ == rest);
        let ghost before = acc@;
        acc.push(line);
        assert(views(acc@) == views(before).push(line@));
        assert(views(acc@) == views(before) + lines_of(rest));
    } else {
        assert(rest.len() == 0);
        assert(views(acc@) + lines_of(rest) == views(acc@));
    }
    acc
}

/// The pieces of `ls` joined with `sep` between each two of them.
pub fn join_chars(ls: &Vec<Vec<char>>, sep: &Vec<char>) -> (r: Vec<char>)
    ensures
        r@ == join(views(ls@), sep@),
{
    let mut r: Vec<char> = Vec::new();
    for k in 0..ls.len()
        invariant
            r@ == join(views(ls@).take(k as int), sep@),
    {
        let ghost prev = views(ls@).take(k as int);
        let ghost next = views(ls@).take(k + 1);
        assert(next.drop_last() == prev);
        assert(next.last() == ls@[k as int]@);
        if k > 0 {
            extend_chars(&mut r, sep);
        } else {
            assert(next.len() == 1);
        }
        extend_chars(&mut r, &ls[k]);
    }
    assert(views(ls@).take(ls.len() as int) == views(ls@));
    r
}

/// Position of the first `c` in `s`, or `s.len()` when there is none.
pub fn find_char(s: &Vec<char>, c: char) -> (r: usize)
    ensures
        r == len_before(s@, c),
{
    for i in 0..s.len()
        invariant
            forall|k: int| 0 <= k < i ==> s@[k] != c,
    {
        if s[i] == c {
            proof {
                lemma_len_before_at(s@, c, i as int);
            }
            return i;
        }
    }
    proof {
        lemma_len_before_at(s@, c, s@.len() as int);
    }
    s.len()
}

} // verus!
