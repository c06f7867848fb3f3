//! Character-sequence utilities shared by the front-matter parser:
//! locating a character, splitting text into lines, and trimming
//! surrounding whitespace, each with an executable form proved against
//! its specification.

use vstd::prelude::*;

verus! {

/// The whitespace characters stripped from the ends of a front-matter
/// value: the Unicode `White_Space` set, the same characters `str::trim`
/// strips.
pub open spec fn is_ws(c: char) -> bool {
    c == '\u{0009}' || c == '\u{000A}' || c == '\u{000B}' || c == '\u{000C}' || c == '\u{000D}'
        || c == '\u{0020}' || c == '\u{0085}' || c == '\u{00A0}' || c == '\u{1680}'
        || c == '\u{2000}' || c == '\u{2001}' || c == '\u{2002}' || c == '\u{2003}'
        || c == '\u{2004}' || c == '\u{2005}' || c == '\u{2006}' || c == '\u{2007}'
        || c == '\u{2008}' || c == '\u{2009}' || c == '\u{200A}' || c == '\u{2028}'
        || c == '\u{2029}' || c == '\u{202F}' || c == '\u{205F}' || c == '\u{3000}'
}

/// Index of the first occurrence of `c` in `s`, or `s.len()` when absent.
pub open spec fn find_char(s: Seq<char>, c: char) -> int
    decreases s.len(),
{
    if s.len() == 0 {
        0
    } else if s[0] == c {
        0
    } else {
        1 + find_char(s.skip(1), c)
    }
}

pub proof fn lemma_find_char(s: Seq<char>, c: char)
    ensures
        0 <= find_char(s, c) <= s.len(),
        forall|j: int| 0 <= j < find_char(s, c) ==> s[j] != c,
        find_char(s, c) < s.len() ==> s[find_char(s, c)] == c,
    decreases s.len(),
{
    if s.len() == 0 {
    } else if s[0] == c {
    } else {
        lemma_find_char(s.skip(1), c);
        let r = find_char(s, c);
        assert forall|j: int| 0 <= j < r implies s[j] != c by {
            if j > 0 {
                assert(s.skip(1)[j - 1] == s[j]);
            }
        }
        if r < s.len() {
            assert(s.skip(1)[r - 1] == s[r]);
        }
    }
}

/// The first occurrence uniquely determines `find_char`.
pub proof fn lemma_find_char_at(s: Seq<char>, c: char, i: int)
    requires
        0 <= i < s.len(),
        s[i] == c,
        forall|j: int| 0 <= j < i ==> s[j] != c,
    ensures
        find_char(s, c) == i,
{
    lemma_find_char(s, c);
    let r = find_char(s, c);
    if r < i {
        assert(s[r] != c);
    }
    if r > i {
        assert(s[i] != c);
    }
}

/// Index of the first occurrence of `c` in `s`, or the length when absent.
pub fn find_char_in(s: &str, c: char) -> (r: usize)
    ensures
        r == find_char(s@, c),
{
    let n = s.unicode_len();
    let mut i: usize = 0;
    proof {
        lemma_find_char(s@, c);
    }
    while i < n
        invariant
            0 <= i <= n,
            n == s@.len(),
            forall|j: int| 0 <= j < i ==> s@[j] != c,
            find_char(s@, c) <= s@.len(),
            forall|j: int| 0 <= j < find_char(s@, c) ==> s@[j] != c,
            find_char(s@, c) < s@.len() ==> s@[find_char(s@, c)] == c,
        decreases n - i,
    {
        let ch = s.get_char(i);
        if ch == c {
            proof {
                lemma_find_char_at(s@, c, i as int);
            }
            return i;
        }
        i += 1;
    }
    proof {
        if find_char(s@, c) < s@.len() {
            assert(s@[find_char(s@, c)] != c);
        }
    }
    n
}

/// The lines of `s`, split at `'\n'`; a trailing newline yields no empty
/// final line, matching how the rest of the crate reads a front-matter
/// block.
pub open spec fn split_lines(s: Seq<char>) -> Seq<Seq<char>>
    decreases s.len(),
{
    if s.len() == 0 {
        Seq::empty()
    } else if s[0] == '\n' {
        seq![Seq::<char>::empty()] + split_lines(s.skip(1))
    } else {
        let rest = split_lines(s.skip(1));
        if rest.len() == 0 {
            seq![seq![s[0]]]
        } else {
            seq![seq![s[0]] + rest[0]] + rest.skip(1)
        }
    }
}

/// Peeling the first line: if `s` has no newline before index `i`, and a
/// newline at `i` (or none at all when `i == s.len()`), the split starts
/// with `s[..i]`.
pub proof fn lemma_split_lines_head(s: Seq<char>, i: int)
    requires
        0 <= i <= s.len(),
        forall|j: int| 0 <= j < i ==> s[j] != '\n',
        i < s.len() ==> s[i] == '\n',
    ensures
        i == s.len() && s.len() == 0 ==> split_lines(s) == Seq::<Seq<char>>::empty(),
        i == s.len() && s.len() > 0 ==> split_lines(s) == seq![s],
        i < s.len() ==> split_lines(s) == seq![s.subrange(0, i)] + split_lines(
            s.subrange(i + 1, s.len() as int),
        ),
    decreases i,
{
    if i == 0 {
        if s.len() == 0 {
        } else {
            assert(s[0] == '\n');
            assert(s.subrange(0, 0) =~= Seq::<char>::empty());
            assert(s.skip(1) =~= s.subrange(1, s.len() as int));
        }
    } else {
        assert(s[0] != '\n');
        let t = s.skip(1);
        assert forall|j: int| 0 <= j < i - 1 implies t[j] != '\n' by {
            assert(t[j] == s[j + 1]);
        }
        if i - 1 < t.len() {
            assert(t[i - 1] == s[i]);
        }
        lemma_split_lines_head(t, i - 1);
        let rest = split_lines(t);
        if i == s.len() {
            if t.len() == 0 {
                assert(s =~= seq![s[0]]);
            } else {
                assert(rest == seq![t]);
                assert(seq![s[0]] + t =~= s);
                assert(rest.skip(1) =~= Seq::<Seq<char>>::empty());
                assert(split_lines(s) == seq![seq![s[0]] + rest[0]] + rest.skip(1));
                assert(seq![seq![s[0]] + rest[0]] + rest.skip(1) =~= seq![s]);
            }
        } else {
            let trest = split_lines(t.subrange(i, t.len() as int));
            assert(rest == seq![t.subrange(0, i - 1)] + trest);
            assert(rest.len() >= 1);
            assert(rest[0] == t.subrange(0, i - 1));
            assert(seq![s[0]] + t.subrange(0, i - 1) =~= s.subrange(0, i));
            assert(rest.skip(1) =~= trest);
            assert(t.subrange(i, t.len() as int) =~= s.subrange(i + 1, s.len() as int));
            assert(split_lines(s) == seq![seq![s[0]] + rest[0]] + rest.skip(1));
            assert(seq![seq![s[0]] + rest[0]] + rest.skip(1) =~= seq![s.subrange(0, i)]
                + split_lines(s.subrange(i + 1, s.len() as int)));
        }
    }
}

/// The views of a vector of owned lines.
pub open spec fn line_views(v: Seq<String>) -> Seq<Seq<char>> {
    v.map_values(|t: String| t@)
}

/// Splits `s` into its lines, as `split_lines` describes.
pub fn split_lines_exec(s: &str) -> (r: Vec<String>)
    ensures
        line_views(r@) == split_lines(s@),
{
    let n = s.unicode_len();
    let mut out: Vec<String> = Vec::new();
    let mut start: usize = 0;
    proof {
        assert(line_views(out@) =~= Seq::<Seq<char>>::empty());
        assert(s@.subrange(0, n as int) =~= s@);
    }
    while start < n
        invariant
            0 <= start <= n,
            n == s@.len(),
            split_lines(s@) == line_views(out@) + split_lines(
                s@.subrange(start as int, n as int),
            ),
        decreases n - start,
    {
        let ghost prev = out@;
        let ghost tail = s@.subrange(start as int, n as int);
        let mut i: usize = start;
        while i < n && s.get_char(i) != '\n'
            invariant
                start <= i <= n,
                n == s@.len(),
                forall|j: int| start <= j < i ==> s@[j] != '\n',
            decreases n - i,
        {
            i += 1;
        }
        let line = s.substring_char(start, i).to_owned();
        out.push(line);
        proof {
            assert forall|j: int| 0 <= j < i - start implies tail[j] != '\n' by {
                assert(tail[j] == s@[start + j]);
            }
            if (i as int) - (start as int) < tail.len() {
                assert(tail[i - start] == s@[i as int]);
            }
            lemma_split_lines_head(tail, i as int - start as int);
            assert(tail.subrange(0, i as int - start as int) =~= s@.subrange(
                start as int,
                i as int,
            ));
            assert(line_views(out@) =~= line_views(prev).push(s@.subrange(
                start as int,
                i as int,
            )));
            if i < n {
                assert(tail.subrange(i as int - start as int + 1, tail.len() as int) =~= s@.subrange(
                    i as int + 1,
                    n as int,
                ));
                assert(split_lines(s@) =~= line_views(out@) + split_lines(
                    s@.subrange(i as int + 1, n as int),
                ));
            } else {
                assert(tail.len() > 0);
                assert(split_lines(tail) == seq![tail]);
                assert(tail =~= s@.subrange(start as int, i as int));
                assert(s@.subrange(i as int, n as int).len() == 0);
                assert(split_lines(s@.subrange(i as int, n as int)) == Seq::<Seq<char>>::empty());
                assert(split_lines(s@) =~= line_views(out@) + split_lines(
                    s@.subrange(i as int, n as int),
                ));
            }
        }
        if i < n {
            start = i + 1;
        } else {
            start = i;
        }
    }
    proof {
        assert(s@.subrange(n as int, n as int).len() == 0);
        assert(split_lines(s@) =~= line_views(out@));
    }
    out
}

/// `s` without its leading whitespace.
pub open spec fn trim_start(s: Seq<char>) -> Seq<char>
    decreases s.len(),
{
    if s.len() > 0 && is_ws(s[0]) {
        trim_start(s.skip(1))
    } else {
        s
    }
}

/// `s` without its trailing whitespace.
pub open spec fn trim_end(s: Seq<char>) -> Seq<char>
    decreases s.len(),
{
    if s.len() > 0 && is_ws(s.last()) {
        trim_end(s.take(s.len() - 1))
    } else {
        s
    }
}

/// `s` without surrounding whitespace, as `str::trim` would leave it for
/// the characters `is_ws` names.
pub open spec fn trim(s: Seq<char>) -> Seq<char> {
    trim_end(trim_start(s))
}

pub proof fn lemma_trim_start_eq(s: Seq<char>, a: int)
    requires
        0 <= a <= s.len(),
        forall|j: int| 0 <= j < a ==> is_ws(s[j]),
        a < s.len() ==> !is_ws(s[a]),
    ensures
        trim_start(s) == s.subrange(a, s.len() as int),
    decreases a,
{
    if a == 0 {
        assert(s.subrange(0, s.len() as int) =~= s);
    } else {
        let t = s.skip(1);
        assert forall|j: int| 0 <= j < a - 1 implies is_ws(t[j]) by {
            assert(t[j] == s[j + 1]);
        }
        if a - 1 < t.len() {
            assert(t[a - 1] == s[a]);
        }
        lemma_trim_start_eq(t, a - 1);
        assert(t.subrange(a - 1, t.len() as int) =~= s.subrange(a, s.len() as int));
    }
}

pub proof fn lemma_trim_end_eq(s: Seq<char>, b: int)
    requires
        0 <= b <= s.len(),
        forall|j: int| b <= j < s.len() ==> is_ws(s[j]),
        b > 0 ==> !is_ws(s[b - 1]),
    ensures
        trim_end(s) == s.subrange(0, b),
    decreases s.len(),
{
    if b == s.len() {
        if s.len() > 0 {
            assert(!is_ws(s.last()));
        }
        assert(s.subrange(0, s.len() as int) =~= s);
    } else {
        assert(is_ws(s.last()));
        let t = s.take(s.len() - 1);
        assert forall|j: int| b <= j < t.len() implies is_ws(t[j]) by {
            assert(t[j] == s[j]);
        }
        if b > 0 {
            assert(t[b - 1] == s[b - 1]);
        }
        lemma_trim_end_eq(t, b);
        assert(t.subrange(0, b) =~= s.subrange(0, b));
    }
}

/// `trim` keeps exactly the characters between the first and last
/// non-whitespace positions.
pub proof fn lemma_trim_eq(s: Seq<char>, a: int, b: int)
    requires
        0 <= a <= b <= s.len(),
        forall|j: int| 0 <= j < a ==> is_ws(s[j]),
        forall|j: int| b <= j < s.len() ==> is_ws(s[j]),
        a < s.len() ==> !is_ws(s[a]),
        b > a ==> !is_ws(s[b - 1]),
    ensures
        trim(s) == s.subrange(a, b),
{
    lemma_trim_start_eq(s, a);
    let t = s.subrange(a, s.len() as int);
    if a == s.len() {
        assert(t.len() == 0);
        assert(b == a);
        assert(trim_end(t) == t);
        assert(t =~= s.subrange(a, b));
    } else {
        assert forall|j: int| b - a <= j < t.len() implies is_ws(t[j]) by {
            assert(t[j] == s[a + j]);
        }
        if b - a > 0 {
            assert(t[b - a - 1] == s[b - 1]);
        } else {
            assert(!is_ws(s[a]));
            assert(t[0] == s[a]);
            assert(b == a);
            assert(false) by {
                assert(is_ws(s[a]));
            }
        }
        lemma_trim_end_eq(t, b - a);
        assert(t.subrange(0, b - a) =~= s.subrange(a, b));
    }
}

pub proof fn lemma_trim_start_len(s: Seq<char>)
    ensures
        trim_start(s).len() <= s.len(),
        trim_start(s).len() == s.len() ==> trim_start(s) == s,
    decreases s.len(),
{
    if s.len() > 0 && is_ws(s[0]) {
        lemma_trim_start_len(s.skip(1));
    }
}

pub proof fn lemma_trim_end_len(s: Seq<char>)
    ensures
        trim_end(s).len() <= s.len(),
        trim_end(s).len() == s.len() ==> trim_end(s) == s,
    decreases s.len(),
{
    if s.len() > 0 && is_ws(s.last()) {
        lemma_trim_end_len(s.take(s.len() - 1));
    }
}

/// A value equal to its own trim is stable under both one-sided trims.
pub proof fn lemma_trim_stable_parts(s: Seq<char>)
    requires
        trim(s) == s,
    ensures
        trim_start(s) == s,
        trim_end(s) == s,
{
    lemma_trim_start_len(s);
    lemma_trim_end_len(trim_start(s));
    assert(trim_start(s).len() == s.len());
}

pub proof fn lemma_trim_start_head(s: Seq<char>)
    ensures
        trim_start(s).len() > 0 ==> !is_ws(trim_start(s)[0]),
    decreases s.len(),
{
    if s.len() > 0 && is_ws(s[0]) {
        lemma_trim_start_head(s.skip(1));
    }
}

pub proof fn lemma_trim_end_last(s: Seq<char>)
    ensures
        trim_end(s).len() > 0 ==> !is_ws(trim_end(s).last()),
    decreases s.len(),
{
    if s.len() > 0 && is_ws(s.last()) {
        lemma_trim_end_last(s.take(s.len() - 1));
    }
}

pub proof fn lemma_trim_end_head(s: Seq<char>)
    ensures
        trim_end(s).len() > 0 ==> trim_end(s)[0] == s[0],
    decreases s.len(),
{
    if s.len() > 0 && is_ws(s.last()) {
        lemma_trim_end_head(s.take(s.len() - 1));
    }
}

/// Trimming is idempotent.
pub proof fn lemma_trim_idempotent(s: Seq<char>)
    ensures
        trim(trim(s)) == trim(s),
{
    let t = trim(s);
    lemma_trim_start_head(s);
    lemma_trim_end_head(trim_start(s));
    lemma_trim_end_last(trim_start(s));
    if t.len() > 0 {
        assert(!is_ws(t[0]));
        assert(!is_ws(t.last()));
    }
    assert(trim_start(t) == t);
    assert(trim_end(t) == t);
}

/// `s` without surrounding whitespace.
pub fn trim_exec(s: &str) -> (r: String)
    ensures
        r@ == trim(s@),
{
    let n = s.unicode_len();
    let mut a: usize = 0;
    while a < n && is_ws_exec(s.get_char(a))
        invariant
            0 <= a <= n,
            n == s@.len(),
            forall|j: int| 0 <= j < a ==> is_ws(s@[j]),
        decreases n - a,
    {
        a += 1;
    }
    if a == n {
        proof {
            lemma_trim_eq(s@, a as int, a as int);
        }
        let r = String::new();
        proof {
            assert(r@ =~= s@.subrange(a as int, a as int));
        }
        return r;
    }
    let mut b: usize = n;
    while b > a + 1 && is_ws_exec(s.get_char(b - 1))
        invariant
            a < b <= n,
            n == s@.len(),
            !is_ws(s@[a as int]),
            forall|j: int| b <= j < n ==> is_ws(s@[j]),
        decreases b,
    {
        b -= 1;
    }
    proof {
        // the scan stops either at a non-whitespace character or at
        // b == a + 1, where s[b - 1] is the non-whitespace s[a]
        assert(!is_ws(s@[b as int - 1]));
        lemma_trim_eq(s@, a as int, b as int);
    }
    s.substring_char(a, b).to_owned()
}

/// Executable form of `is_ws`.
pub fn is_ws_exec(c: char) -> (b: bool)
    ensures
        b == is_ws(c),
{
    c == '\u{0009}' || c == '\u{000A}' || c == '\u{000B}' || c == '\u{000C}' || c == '\u{000D}'
        || c == '\u{0020}' || c == '\u{0085}' || c == '\u{00A0}' || c == '\u{1680}'
        || c == '\u{2000}' || c == '\u{2001}' || c == '\u{2002}' || c == '\u{2003}'
        || c == '\u{2004}' || c == '\u{2005}' || c == '\u{2006}' || c == '\u{2007}'
        || c == '\u{2008}' || c == '\u{2009}' || c == '\u{200A}' || c == '\u{2028}'
        || c == '\u{2029}' || c == '\u{202F}' || c == '\u{205F}' || c == '\u{3000}'
}

} // verus!
