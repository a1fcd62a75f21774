//! Character-level string operations with exact specifications.
//!
//! Strings are viewed as sequences of `char`. Executable code works on
//! `Vec<char>`; `chars_of` and `string_of` convert at the edges.

use vstd::prelude::*;

verus! {

/// The characters that carry the Unicode `White_Space` property.
pub open spec fn is_whitespace(c: char) -> bool {
    ('\u{0009}' <= c && c <= '\u{000D}') || c == '\u{0020}' || c == '\u{0085}' || c == '\u{00A0}'
        || c == '\u{1680}' || ('\u{2000}' <= c && c <= '\u{200A}') || c == '\u{2028}' || c
        == '\u{2029}' || c == '\u{202F}' || c == '\u{205F}' || c == '\u{3000}'
}

/// The ASCII letters and digits.
pub open spec fn is_ascii_alphanumeric(c: char) -> bool {
    ('a' <= c && c <= 'z') || ('A' <= c && c <= 'Z') || ('0' <= c && c <= '9')
}

/// The ASCII decimal digits.
pub open spec fn is_ascii_digit(c: char) -> bool {
    '0' <= c && c <= '9'
}

/// `s` without its leading whitespace.
pub open spec fn trim_start(s: Seq<char>) -> Seq<char>
    decreases s.len(),
{
    if s.len() > 0 && is_whitespace(s[0]) {
        trim_start(s.skip(1))
    } else {
        s
    }
}

/// `s` without its trailing whitespace.
pub open spec fn trim_end(s: Seq<char>) -> Seq<char>
    decreases s.len(),
{
    if s.len() > 0 && is_whitespace(s.last()) {
        trim_end(s.drop_last())
    } else {
        s
    }
}

/// `s` without leading and trailing whitespace.
pub open spec fn trim(s: Seq<char>) -> Seq<char> {
    trim_end(trim_start(s))
}

/// Whether `s` holds nothing but whitespace.
pub open spec fn is_blank(s: Seq<char>) -> bool {
    trim(s).len() == 0
}

/// Whether `s` begins with `prefix`.
pub open spec fn starts_with(s: Seq<char>, prefix: Seq<char>) -> bool {
    prefix.len() <= s.len() && s.take(prefix.len() as int) == prefix
}

/// Whether `pat` occurs in `s` at offset `at`.
pub open spec fn occurs_at(s: Seq<char>, pat: Seq<char>, at: int) -> bool {
    0 <= at && at + pat.len() <= s.len() && s.subrange(at, at + pat.len()) == pat
}

/// Whether `pat` occurs somewhere in `s`.
pub open spec fn contains(s: Seq<char>, pat: Seq<char>) -> bool {
    exists|at: int| occurs_at(s, pat, at)
}

/// `s` with every occurrence of `pat` replaced by `to`, scanning from the
/// left and never matching inside text that was already matched. An empty
/// `pat` occurs nowhere.
pub open spec fn replace_all(s: Seq<char>, pat: Seq<char>, to: Seq<char>) -> Seq<char>
    decreases s.len(),
{
    if pat.len() == 0 || s.len() < pat.len() {
        s
    } else if occurs_at(s, pat, 0) {
        to + replace_all(s.skip(pat.len() as int), pat, to)
    } else {
        seq![s[0]] + replace_all(s.skip(1), pat, to)
    }
}

/// `line` without one trailing carriage return.
pub open spec fn strip_cr(line: Seq<char>) -> Seq<char> {
    if line.len() > 0 && line.last() == '\r' {
        line.drop_last()
    } else {
        line
    }
}

/// The lines of `rest`, where `cur` holds the characters already read of
/// the line in progress.
pub open spec fn lines_from(rest: Seq<char>, cur: Seq<char>) -> Seq<Seq<char>>
    decreases rest.len(),
{
    if rest.len() == 0 {
        if cur.len() == 0 {
            Seq::empty()
        } else {
            seq![cur]
        }
    } else if rest[0] == '\n' {
        seq![strip_cr(cur)] + lines_from(rest.skip(1), Seq::empty())
    } else {
        lines_from(rest.skip(1), cur.push(rest[0]))
    }
}

/// The lines of `s`: the text between line feeds, each without the carriage
/// return that may precede its line feed. A final line needs no line feed;
/// an empty final line is not a line.
pub open spec fn lines(s: Seq<char>) -> Seq<Seq<char>> {
    lines_from(s, Seq::empty())
}

/// The views of a vector of character vectors.
pub open spec fn views(v: Seq<Vec<char>>) -> Seq<Seq<char>> {
    Seq::new(v.len(), |i: int| v[i]@)
}

pub fn char_is_whitespace(c: char) -> (b: bool)
    ensures
        b == is_whitespace(c),
{
    ('\u{0009}' <= c && c <= '\u{000D}') || c == '\u{0020}' || c == '\u{0085}' || c == '\u{00A0}'
        || c == '\u{1680}' || ('\u{2000}' <= c && c <= '\u{200A}') || c == '\u{2028}' || c
        == '\u{2029}' || c == '\u{202F}' || c == '\u{205F}' || c == '\u{3000}'
}

pub fn char_is_ascii_alphanumeric(c: char) -> (b: bool)
    ensures
        b == is_ascii_alphanumeric(c),
{
    ('a' <= c && c <= 'z') || ('A' <= c && c <= 'Z') || ('0' <= c && c <= '9')
}

pub fn char_is_ascii_digit(c: char) -> (b: bool)
    ensures
        b == is_ascii_digit(c),
{
    '0' <= c && c <= '9'
}

/// The characters of `s`.
pub fn chars_of(s: &str) -> (v: Vec<char>)
    ensures
        v@ == s@,
{
    let mut v: Vec<char> = Vec::new();
    for c in it: s.chars()
        invariant
            v@ == it.seq().take(it.index() as int),
    {
        v.push(c);
    }
    v
}

/// Appends one character with `String::push`: afterwards the string holds
/// what it held before, followed by `c`.
#[verifier::external_body]
pub(crate) fn push_char(s: &mut String, c: char)
    ensures
        final(s)@ == old(s)@.push(c),
{
    s.push(c)
}

/// The string made of the characters `v`.
pub fn string_of(v: &Vec<char>) -> (s: String)
    ensures
        s@ == v@,
{
    let mut s = String::new();
    let mut i: usize = 0;
    while i < v.len()
        invariant
            i <= v.len(),
            s@ == v@.take(i as int),
        decreases v.len() - i,
    {
        push_char(&mut s, v[i]);
        i += 1;
    }
    s
}

/// A copy of `s[from..to]`.
pub fn subvec(s: &Vec<char>, from: usize, to: usize) -> (r: Vec<char>)
    requires
        from <= to <= s.len(),
    ensures
        r@ == s@.subrange(from as int, to as int),
{
    let mut r: Vec<char> = Vec::new();
    let mut i: usize = from;
    while i < to
        invariant
            from <= i <= to <= s.len(),
            r@ == s@.subrange(from as int, i as int),
        decreases to - i,
    {
        r.push(s[i]);
        i += 1;
    }
    r
}

/// Appends the characters of `tail` to `out`.
pub fn append_chars(out: &mut Vec<char>, tail: &Vec<char>)
    ensures
        final(out)@ == old(out)@ + tail@,
{
    let mut i: usize = 0;
    while i < tail.len()
        invariant
            i <= tail.len(),
            out@ == old(out)@ + tail@.take(i as int),
        decreases tail.len() - i,
    {
        out.push(tail[i]);
        i += 1;
    }
}

/// Whether two character vectors hold the same text.
pub fn chars_eq(a: &Vec<char>, b: &Vec<char>) -> (r: bool)
    ensures
        r == (a@ == b@),
{
    if a.len() != b.len() {
        return false;
    }
    let mut i: usize = 0;
    while i < a.len()
        invariant
            i <= a.len(),
            a.len() == b.len(),
            a@.take(i as int) == b@.take(i as int),
        decreases a.len() - i,
    {
        if a[i] != b[i] {
            return false;
        }
        assert(a@.take(i + 1) == a@.take(i as int).push(a@[i as int]));
        assert(b@.take(i + 1) == b@.take(i as int).push(b@[i as int]));
        i += 1;
    }
    assert(a@ == a@.take(a.len() as int));
    assert(b@ == b@.take(b.len() as int));
    true
}

/// Whether two strings hold the same text.
pub fn str_eq(a: &str, b: &str) -> (r: bool)
    ensures
        r == (a@ == b@),
{
    let x = chars_of(a);
    let y = chars_of(b);
    chars_eq(&x, &y)
}

/// `s` without its leading whitespace.
pub fn trim_start_chars(s: &Vec<char>) -> (r: Vec<char>)
    ensures
        r@ == trim_start(s@),
{
    let mut i: usize = 0;
    assert(s@.skip(0) == s@);
    while i < s.len() && char_is_whitespace(s[i])
        invariant
            i <= s.len(),
            trim_start(s@) == trim_start(s@.skip(i as int)),
        decreases s.len() - i,
    {
        assert(s@.skip(i as int).skip(1) == s@.skip(i + 1));
        i += 1;
    }
    assert(s@.skip(i as int) == s@.subrange(i as int, s.len() as int));
    subvec(s, i, s.len())
}

/// `s` without its trailing whitespace.
pub fn trim_end_chars(s: &Vec<char>) -> (r: Vec<char>)
    ensures
        r@ == trim_end(s@),
{
    let mut n: usize = s.len();
    assert(s@.take(n as int) == s@);
    while n > 0 && char_is_whitespace(s[n - 1])
        invariant
            n <= s.len(),
            trim_end(s@) == trim_end(s@.take(n as int)),
        decreases n,
    {
        assert(s@.take(n as int).drop_last() == s@.take(n - 1));
        n -= 1;
    }
    assert(s@.take(n as int) == s@.subrange(0, n as int));
    subvec(s, 0, n)
}

/// `s` without leading and trailing whitespace.
pub fn trim_chars(s: &Vec<char>) -> (r: Vec<char>)
    ensures
        r@ == trim(s@),
{
    let t = trim_start_chars(s);
    trim_end_chars(&t)
}

/// Whether `pat` occurs in `s` at offset `at`.
pub fn matches_at(s: &Vec<char>, pat: &Vec<char>, at: usize) -> (r: bool)
    ensures
        r == occurs_at(s@, pat@, at as int),
{
    if at > s.len() || pat.len() > s.len() - at {
        return false;
    }
    let mut j: usize = 0;
    while j < pat.len()
        invariant
            j <= pat.len(),
            at + pat.len() <= s.len(),
            s@.subrange(at as int, at + j) == pat@.take(j as int),
        decreases pat.len() - j,
    {
        if s[at + j] != pat[j] {
            assert(s@.subrange(at as int, at + pat.len())[j as int] != pat@[j as int]);
            return false;
        }
        assert(s@.subrange(at as int, at + j + 1) == s@.subrange(at as int, at + j).push(
            s@[at + j],
        ));
        assert(pat@.take(j + 1) == pat@.take(j as int).push(pat@[j as int]));
        j += 1;
    }
    assert(pat@.take(pat.len() as int) == pat@);
    true
}

/// Whether `s` begins with `prefix`.
pub fn has_prefix(s: &Vec<char>, prefix: &Vec<char>) -> (r: bool)
    ensures
        r == starts_with(s@, prefix@),
{
    let r = matches_at(s, prefix, 0);
    assert(prefix.len() <= s.len() ==> s@.take(prefix.len() as int) == s@.subrange(
        0,
        0 + prefix.len(),
    ));
    r
}

/// Whether `pat` occurs somewhere in `s`.
pub fn has_substring(s: &Vec<char>, pat: &Vec<char>) -> (r: bool)
    ensures
        r == contains(s@, pat@),
{
    if pat.len() > s.len() {
        return false;
    }
    let last: usize = s.len() - pat.len();
    let mut i: usize = 0;
    while i < last
        invariant
            i <= last,
            last == s.len() - pat.len(),
            forall|at: int| 0 <= at < i ==> !occurs_at(s@, pat@, at),
        decreases last - i,
    {
        if matches_at(s, pat, i) {
            return true;
        }
        i += 1;
    }
    matches_at(s, pat, last)
}

/// `s` with every occurrence of `pat` replaced by `to`; `s` itself where
/// `pat` is empty.
pub fn replace_chars(s: &Vec<char>, pat: &Vec<char>, to: &Vec<char>) -> (r: Vec<char>)
    ensures
        r@ == replace_all(s@, pat@, to@),
{
    if pat.len() == 0 {
        assert(s@.subrange(0, s.len() as int) == s@);
        return subvec(s, 0, s.len());
    }
    let mut out: Vec<char> = Vec::new();
    let mut i: usize = 0;
    assert(s@.skip(0) == s@);
    while i < s.len() && pat.len() <= s.len() - i
        invariant
            i <= s.len(),
            pat.len() > 0,
            replace_all(s@, pat@, to@) == out@ + replace_all(s@.skip(i as int), pat@, to@),
        decreases s.len() - i,
    {
        let ghost rest = s@.skip(i as int);
        let hit = matches_at(s, pat, i);
        assert(rest.subrange(0, 0 + pat.len()) == s@.subrange(i as int, i + pat.len()));
        assert(hit == occurs_at(rest, pat@, 0));
        if hit {
            assert(rest.skip(pat.len() as int) == s@.skip(i + pat.len()));
            append_chars(&mut out, to);
            i += pat.len();
        } else {
            assert(rest.skip(1) == s@.skip(i + 1));
            out.push(s[i]);
            i += 1;
        }
    }
    let rest = subvec(s, i, s.len());
    assert(rest@ == s@.skip(i as int));
    append_chars(&mut out, &rest);
    out
}

/// The lines of `s`.
pub fn split_lines(s: &Vec<char>) -> (r: Vec<Vec<char>>)
    ensures
        views(r@) == lines(s@),
{
    let mut out: Vec<Vec<char>> = Vec::new();
    let mut cur: Vec<char> = Vec::new();
    let mut i: usize = 0;
    assert(s@.skip(0) == s@);
    assert(views(out@) == Seq::<Seq<char>>::empty());
    while i < s.len()
        invariant
            i <= s.len(),
            lines(s@) == views(out@) + lines_from(s@.skip(i as int), cur@),
        decreases s.len() - i,
    {
        assert(s@.skip(i as int).skip(1) == s@.skip(i + 1));
        if s[i] == '\n' {
            let n: usize = cur.len();
            let line = if n > 0 && cur[n - 1] == '\r' {
                subvec(&cur, 0, n - 1)
            } else {
                cur
            };
            assert(line@ == strip_cr(cur@));
            let ghost before = out@;
            out.push(line);
            assert(views(out@) == views(before) + seq![line@]);
            cur = Vec::new();
        } else {
            cur.push(s[i]);
        }
        i += 1;
    }
    if cur.len() > 0 {
        let ghost before = out@;
        out.push(cur);
        assert(views(out@) == views(before) + seq![cur@]);
    }
    out
}

/// Whether `s` holds nothing but whitespace.
pub fn str_is_blank(s: &str) -> (r: bool)
    ensures
        r == is_blank(s@),
{
    let chars = chars_of(s);
    trim_chars(&chars).len() == 0
}

/// `s` without leading and trailing whitespace.
pub fn trim_str(s: &str) -> (r: String)
    ensures
        r@ == trim(s@),
{
    let chars = chars_of(s);
    string_of(&trim_chars(&chars))
}

/// The offset of the first whitespace in `s`, or the length of `s` if
/// there is none.
pub open spec fn first_whitespace(s: Seq<char>) -> int
    decreases s.len(),
{
    if s.len() == 0 || is_whitespace(s[0]) {
        0
    } else {
        1 + first_whitespace(s.skip(1))
    }
}

/// The offset of the first whitespace in `s`, or the length of `s`.
pub fn find_whitespace(s: &Vec<char>) -> (k: usize)
    ensures
        k == first_whitespace(s@),
        k <= s.len(),
{
    let mut i: usize = 0;
    assert(s@.skip(0) == s@);
    while i < s.len() && !char_is_whitespace(s[i])
        invariant
            i <= s.len(),
            first_whitespace(s@) == i + first_whitespace(s@.skip(i as int)),
        decreases s.len() - i,
    {
        assert(s@.skip(i as int).skip(1) == s@.skip(i + 1));
        i += 1;
    }
    i
}

/// Whether two texts are equal as far as both reach: one begins with the
/// other.
pub open spec fn agrees(a: Seq<char>, b: Seq<char>) -> bool {
    forall|k: int| 0 <= k < a.len() && k < b.len() ==> a[k] == b[k]
}

/// Whether an occurrence of `pat` can begin within `e`: from some place
/// on, `e` reads as `pat` does from its start.
pub open spec fn begins_within(e: Seq<char>, pat: Seq<char>) -> bool {
    exists|p: int| 0 <= p < e.len() && #[trigger] agrees(e.skip(p), pat)
}

/// Whether an occurrence of `pat` that began before `e` can go on at the
/// start of `e`: `e` reads as `pat` does from some place after its start.
pub open spec fn continues_into(e: Seq<char>, pat: Seq<char>) -> bool {
    exists|j: int| 1 <= j < pat.len() && #[trigger] agrees(e, pat.skip(j))
}

/// Whether `e`, put into a text, can be part of an occurrence of `pat`
/// that is not wholly in the text around it.
pub open spec fn can_complete(e: Seq<char>, pat: Seq<char>) -> bool {
    begins_within(e, pat) || continues_into(e, pat)
}

/// A text without `pat` is left as it is.
pub proof fn lemma_replace_all_without_occurrence(s: Seq<char>, pat: Seq<char>, to: Seq<char>)
    requires
        !contains(s, pat),
    ensures
        replace_all(s, pat, to) == s,
    decreases s.len(),
{
    if pat.len() == 0 || s.len() < pat.len() {
    } else {
        assert(!occurs_at(s, pat, 0));
        assert forall|at: int| !occurs_at(s.skip(1), pat, at) by {
            if occurs_at(s.skip(1), pat, at) {
                assert(s.subrange(at + 1, at + 1 + pat.len()) == s.skip(1).subrange(
                    at,
                    at + pat.len(),
                ));
                assert(occurs_at(s, pat, at + 1));
            }
        }
        lemma_replace_all_without_occurrence(s.skip(1), pat, to);
        assert(seq![s[0]] + s.skip(1) == s);
    }
}

/// Where the replaced text begins with `w`, either the text itself begins
/// with `w`, or it does so up to an occurrence of `pat`, and `to` agrees
/// with what is left of `w`.
proof fn lemma_replaced_prefix(t: Seq<char>, pat: Seq<char>, to: Seq<char>, w: Seq<char>)
    requires
        pat.len() > 0,
        starts_with(replace_all(t, pat, to), w),
    ensures
        starts_with(t, w) || exists|j: int|
            0 <= j < w.len() && t.take(j) == w.take(j) && occurs_at(t, pat, j) && #[trigger] agrees(
                to,
                w.skip(j),
            ),
    decreases t.len(),
{
    let r = replace_all(t, pat, to);
    if w.len() == 0 {
        assert(t.take(0) == w);
    } else if t.len() < pat.len() {
    } else if occurs_at(t, pat, 0) {
        assert(r == to + replace_all(t.skip(pat.len() as int), pat, to));
        assert(agrees(to, w.skip(0))) by {
            assert forall|k: int| 0 <= k < to.len() && k < w.skip(0).len() implies to[k]
                == w.skip(0)[k] by {
                assert(r.take(w.len() as int)[k] == w[k]);
            }
        }
        assert(t.take(0) == w.take(0));
    } else {
        let rest = replace_all(t.skip(1), pat, to);
        assert(r == seq![t[0]] + rest);
        assert(r.take(w.len() as int)[0] == w[0]);
        assert(starts_with(rest, w.skip(1))) by {
            assert(rest.take(w.len() - 1) =~= r.take(w.len() as int).skip(1));
        }
        lemma_replaced_prefix(t.skip(1), pat, to, w.skip(1));
        if starts_with(t.skip(1), w.skip(1)) {
            assert(t.take(w.len() as int) =~= seq![t[0]] + t.skip(1).take(w.len() - 1));
            assert(w =~= seq![w[0]] + w.skip(1));
        } else {
            let i = choose|j: int|
                0 <= j < w.skip(1).len() && t.skip(1).take(j) == w.skip(1).take(j) && occurs_at(
                    t.skip(1),
                    pat,
                    j,
                ) && #[trigger] agrees(to, w.skip(1).skip(j));
            assert(t.take(i + 1) =~= seq![t[0]] + t.skip(1).take(i));
            assert(w.take(i + 1) =~= seq![w[0]] + w.skip(1).take(i));
            assert(t.subrange(i + 1, i + 1 + pat.len()) == t.skip(1).subrange(i, i + pat.len()));
            assert(w.skip(1).skip(i) == w.skip(i + 1));
            assert(agrees(to, w.skip(i + 1)));
        }
    }
}

/// Replacing `pat` by `to` leaves no occurrence of `q`, where `to` cannot
/// complete one and the text holds `q` only where it holds `pat`. With `q`
/// for `pat`: what is put in place of a pattern does not bring it back.
pub proof fn lemma_replace_all_leaves_none(
    s: Seq<char>,
    pat: Seq<char>,
    to: Seq<char>,
    q: Seq<char>,
)
    requires
        pat.len() > 0,
        q.len() > 0,
        !can_complete(to, q),
        forall|at: int| occurs_at(s, q, at) ==> occurs_at(s, pat, at),
    ensures
        !contains(replace_all(s, pat, to), q),
    decreases s.len(),
{
    let r = replace_all(s, pat, to);
    if s.len() < pat.len() {
    } else if occurs_at(s, pat, 0) {
        let n = pat.len() as int;
        let rest = replace_all(s.skip(n), pat, to);
        assert forall|at: int| occurs_at(s.skip(n), q, at) implies occurs_at(s.skip(n), pat, at) by {
            assert(s.subrange(at + n, at + n + q.len()) == s.skip(n).subrange(at, at + q.len()));
            assert(occurs_at(s, q, at + n));
            assert(s.subrange(at + n, at + n + pat.len()) == s.skip(n).subrange(
                at,
                at + pat.len(),
            ));
        }
        lemma_replace_all_leaves_none(s.skip(n), pat, to, q);
        assert forall|at: int| !occurs_at(r, q, at) by {
            if occurs_at(r, q, at) {
                if at >= to.len() {
                    assert(rest.subrange(at - to.len(), at - to.len() + q.len()) == r.subrange(
                        at,
                        at + q.len(),
                    ));
                    assert(occurs_at(rest, q, at - to.len()));
                } else {
                    assert(agrees(to.skip(at), q)) by {
                        assert forall|k: int|
                            0 <= k < to.skip(at).len() && k < q.len() implies to.skip(at)[k]
                            == q[k] by {
                            assert(r.subrange(at, at + q.len())[k] == q[k]);
                        }
                    }
                    assert(begins_within(to, q));
                }
            }
        }
    } else {
        let rest = replace_all(s.skip(1), pat, to);
        assert(r == seq![s[0]] + rest);
        assert forall|at: int| occurs_at(s.skip(1), q, at) implies occurs_at(s.skip(1), pat, at) by {
            assert(s.subrange(at + 1, at + 1 + q.len()) == s.skip(1).subrange(at, at + q.len()));
            assert(occurs_at(s, q, at + 1));
            assert(s.subrange(at + 1, at + 1 + pat.len()) == s.skip(1).subrange(
                at,
                at + pat.len(),
            ));
        }
        lemma_replace_all_leaves_none(s.skip(1), pat, to, q);
        assert forall|at: int| !occurs_at(r, q, at) by {
            if occurs_at(r, q, at) {
                if at >= 1 {
                    assert(rest.subrange(at - 1, at - 1 + q.len()) == r.subrange(at, at + q.len()));
                    assert(occurs_at(rest, q, at - 1));
                } else {
                    let w = q.skip(1);
                    assert(r.subrange(0, q.len() as int)[0] == q[0]);
                    assert(starts_with(rest, w)) by {
                        assert(rest.take(w.len() as int) =~= r.subrange(0, q.len() as int).skip(1));
                    }
                    lemma_replaced_prefix(s.skip(1), pat, to, w);
                    if starts_with(s.skip(1), w) {
                        assert(s.subrange(0, q.len() as int) =~= seq![s[0]] + s.skip(1).take(
                            w.len() as int,
                        ));
                        assert(q =~= seq![q[0]] + w);
                        assert(occurs_at(s, q, 0));
                    } else {
                        let j = choose|j: int|
                            0 <= j < w.len() && s.skip(1).take(j) == w.take(j) && occurs_at(
                                s.skip(1),
                                pat,
                                j,
                            ) && #[trigger] agrees(to, w.skip(j));
                        assert(w.skip(j) == q.skip(j + 1));
                        assert(continues_into(to, q));
                    }
                }
            }
        }
    }
}

} // verus!
