//! The front-matter key/value parser.  A block is a sequence of lines;
//! each non-blank line is `key: value` with the value trimmed, the
//! recognized keys are `title`, `description` and `slug` (last write
//! wins, unknown keys ignored), and a non-blank line without a colon
//! makes the whole block malformed.

use vstd::prelude::*;
use crate::text::{
    find_char, find_char_in, line_views, lemma_find_char, lemma_find_char_at,
    lemma_trim_idempotent, lemma_trim_stable_parts, trim, trim_exec, trim_start, is_ws,
};

verus! {

/// The recognized front-matter fields, as character sequences.
#[verifier::ext_equal]
pub struct FmData {
    pub title: Seq<char>,
    pub description: Seq<char>,
    pub slug: Seq<char>,
}

/// All fields empty: the state before any front-matter line is read.
pub open spec fn fm_empty() -> FmData {
    FmData { title: Seq::empty(), description: Seq::empty(), slug: Seq::empty() }
}

/// One line applied to the fields read so far.  `None` is the malformed
/// case: a non-blank line without a colon.
pub open spec fn apply_line(acc: FmData, line: Seq<char>) -> Option<FmData> {
    if line.len() == 0 {
        Some(acc)
    } else if find_char(line, ':') == line.len() {
        None
    } else {
        let k = line.subrange(0, find_char(line, ':'));
        let v = trim(line.subrange(find_char(line, ':') + 1, line.len() as int));
        if k == "title"@ {
            Some(FmData { title: v, ..acc })
        } else if k == "description"@ {
            Some(FmData { description: v, ..acc })
        } else if k == "slug"@ {
            Some(FmData { slug: v, ..acc })
        } else {
            Some(acc)
        }
    }
}

/// The lines of a block folded over `apply_line`, starting from `acc`.
pub open spec fn parse_fm(lines: Seq<Seq<char>>, acc: FmData) -> Option<FmData>
    decreases lines.len(),
{
    if lines.len() == 0 {
        Some(acc)
    } else {
        match apply_line(acc, lines[0]) {
            Option::None => None,
            Option::Some(acc2) => parse_fm(lines.skip(1), acc2),
        }
    }
}

/// The recognized fields of a front-matter block, owned.
pub struct FmFields {
    pub title: String,
    pub description: String,
    pub slug: String,
}

impl View for FmFields {
    type V = FmData;

    open spec fn view(&self) -> FmData {
        FmData { title: self.title@, description: self.description@, slug: self.slug@ }
    }
}

/// Compares two string slices by their characters.
fn str_eq(a: &str, b: &str) -> (r: bool)
    ensures
        r == (a@ == b@),
{
    let x = a.to_owned();
    let y = b.to_owned();
    x == y
}

/// Parses the lines of a front-matter block; `None` exactly when some
/// non-blank line has no colon.
pub fn parse_front_matter(lines: &Vec<String>) -> (r: Option<FmFields>)
    ensures
        match r {
            Some(f) => parse_fm(line_views(lines@), fm_empty()) == Some(f@),
            None => parse_fm(line_views(lines@), fm_empty()) is None,
        },
{
    let ghost all = line_views(lines@);
    let mut f = FmFields { title: String::new(), description: String::new(), slug: String::new() };
    proof {
        assert(f@ =~= fm_empty());
        assert(all.skip(0) =~= all);
    }
    let mut i: usize = 0;
    while i < lines.len()
        invariant
            0 <= i <= lines.len(),
            all == line_views(lines@),
            parse_fm(all, fm_empty()) == parse_fm(all.skip(i as int), f@),
        decreases lines.len() - i,
    {
        let ghost cur = f@;
        let ghost rest = all.skip(i as int);
        proof {
            assert(rest[0] == lines@[i as int]@);
            assert(rest.skip(1) =~= all.skip(i as int + 1));
        }
        let line = &lines[i];
        let n = line.as_str().unicode_len();
        if n > 0 {
            let ci = find_char_in(line.as_str(), ':');
            if ci == n {
                proof {
                    assert(apply_line(cur, rest[0]) is None);
                    assert(parse_fm(rest, cur) is None);
                }
                return None;
            }
            proof {
                lemma_find_char(line@, ':');
            }
            let k = line.as_str().substring_char(0, ci);
            let vraw = line.as_str().substring_char(ci + 1, n);
            let v = trim_exec(vraw);
            let ghost expected = apply_line(cur, rest[0]).unwrap();
            if str_eq(k, "title") {
                f.title = v;
            } else if str_eq(k, "description") {
                f.description = v;
            } else if str_eq(k, "slug") {
                f.slug = v;
            }
            proof {
                assert(apply_line(cur, rest[0]) == Some(f@)) by {
                    assert(f@ =~= expected);
                }
                assert(parse_fm(rest, cur) == parse_fm(rest.skip(1), f@));
            }
        } else {
            proof {
                assert(rest[0].len() == 0);
                assert(apply_line(cur, rest[0]) == Some(cur));
                assert(parse_fm(rest, cur) == parse_fm(rest.skip(1), f@));
            }
        }
        i += 1;
    }
    proof {
        assert(all.skip(i as int).len() == 0);
    }
    Some(f)
}

/// A block with a non-blank line that has no colon is malformed, wherever
/// that line stands and whatever else the block holds.
pub proof fn lemma_line_without_colon(lines: Seq<Seq<char>>, acc: FmData, i: int)
    requires
        0 <= i < lines.len(),
        lines[i].len() > 0,
        !lines[i].contains(':'),
    ensures
        parse_fm(lines, acc) is None,
    decreases lines.len(),
{
    if i == 0 {
        lemma_find_char(lines[0], ':');
        if find_char(lines[0], ':') < lines[0].len() {
            assert(lines[0].contains(':'));
        }
        assert(apply_line(acc, lines[0]) is None);
    } else {
        match apply_line(acc, lines[0]) {
            Option::None => {},
            Option::Some(a2) => {
                assert(lines.skip(1)[i - 1] == lines[i]);
                lemma_line_without_colon(lines.skip(1), a2, i - 1);
            },
        }
    }
}

/// Every field is unchanged by trimming.
pub open spec fn trim_stable(fm: FmData) -> bool {
    trim(fm.title) == fm.title && trim(fm.description) == fm.description && trim(fm.slug)
        == fm.slug
}

/// The recognized fields written back out as `key: value` lines, one per
/// key.
pub open spec fn serialize_fm(fm: FmData) -> Seq<Seq<char>> {
    seq!["title: "@ + fm.title, "description: "@ + fm.description, "slug: "@ + fm.slug]
}

/// A single leading space disappears under trimming when the rest is
/// already trimmed.
pub proof fn lemma_trim_space_prefix(v: Seq<char>)
    requires
        trim(v) == v,
    ensures
        trim(seq![' '] + v) == v,
{
    lemma_trim_stable_parts(v);
    let s = seq![' '] + v;
    assert(s.len() > 0 && is_ws(s[0]));
    assert(s.skip(1) =~= v);
    assert(trim_start(s) == trim_start(v));
}

/// Parsed fields are already trimmed: parsing never stores a value with
/// surrounding whitespace.
pub proof fn lemma_parse_trim_stable(lines: Seq<Seq<char>>, acc: FmData)
    requires
        trim_stable(acc),
        parse_fm(lines, acc) is Some,
    ensures
        trim_stable(parse_fm(lines, acc).unwrap()),
    decreases lines.len(),
{
    if lines.len() == 0 {
    } else {
        let line = lines[0];
        let a2 = apply_line(acc, line).unwrap();
        if line.len() > 0 {
            lemma_trim_idempotent(line.subrange(find_char(line, ':') + 1, line.len() as int));
        }
        assert(trim_stable(a2));
        lemma_parse_trim_stable(lines.skip(1), a2);
    }
}

proof fn lemma_title_line(acc: FmData, v: Seq<char>)
    requires
        trim(v) == v,
    ensures
        apply_line(acc, "title: "@ + v) == Some(FmData { title: v, ..acc }),
{
    reveal_strlit("title: ");
    reveal_strlit("title");
    let line = "title: "@ + v;
    assert(line[5] == ':');
    assert(forall|j: int| 0 <= j < 5 ==> line[j] == "title: "@[j]);
    lemma_find_char_at(line, ':', 5);
    assert(line.subrange(0, 5) =~= "title"@);
    assert(line.subrange(6, line.len() as int) =~= seq![' '] + v);
    lemma_trim_space_prefix(v);
}

proof fn lemma_description_line(acc: FmData, v: Seq<char>)
    requires
        trim(v) == v,
    ensures
        apply_line(acc, "description: "@ + v) == Some(FmData { description: v, ..acc }),
{
    reveal_strlit("description: ");
    reveal_strlit("description");
    reveal_strlit("title");
    let line = "description: "@ + v;
    assert(line[11] == ':');
    assert(forall|j: int| 0 <= j < 11 ==> line[j] == "description: "@[j]);
    lemma_find_char_at(line, ':', 11);
    assert(line.subrange(0, 11) =~= "description"@);
    assert(line.subrange(0, 11) != "title"@);
    assert(line.subrange(12, line.len() as int) =~= seq![' '] + v);
    lemma_trim_space_prefix(v);
}

proof fn lemma_slug_line(acc: FmData, v: Seq<char>)
    requires
        trim(v) == v,
    ensures
        apply_line(acc, "slug: "@ + v) == Some(FmData { slug: v, ..acc }),
{
    reveal_strlit("slug: ");
    reveal_strlit("slug");
    reveal_strlit("title");
    reveal_strlit("description");
    let line = "slug: "@ + v;
    assert(line[4] == ':');
    assert(forall|j: int| 0 <= j < 4 ==> line[j] == "slug: "@[j]);
    lemma_find_char_at(line, ':', 4);
    assert(line.subrange(0, 4) =~= "slug"@);
    assert(line.subrange(0, 4) != "title"@);
    assert(line.subrange(0, 4) != "description"@);
    assert(line.subrange(5, line.len() as int) =~= seq![' '] + v);
    lemma_trim_space_prefix(v);
}

/// Round trip: whatever well-formed block the recognized fields were
/// read from — in any key order, with blank lines anywhere — writing
/// those fields back out as `key: value` lines and parsing again yields
/// the same fields.
pub proof fn lemma_fm_round_trip(lines: Seq<Seq<char>>, fm: FmData)
    requires
        parse_fm(lines, fm_empty()) == Some(fm),
    ensures
        parse_fm(serialize_fm(fm), fm_empty()) == Some(fm),
{
    assert(trim_stable(fm_empty())) by {
        assert(trim(Seq::<char>::empty()) =~= Seq::<char>::empty());
    }
    lemma_parse_trim_stable(lines, fm_empty());
    let e = fm_empty();
    let ls = serialize_fm(fm);
    let a1 = FmData { title: fm.title, ..e };
    let a2 = FmData { description: fm.description, ..a1 };
    let a3 = FmData { slug: fm.slug, ..a2 };
    lemma_title_line(e, fm.title);
    lemma_description_line(a1, fm.description);
    lemma_slug_line(a2, fm.slug);
    assert(ls.skip(1) =~= seq!["description: "@ + fm.description, "slug: "@ + fm.slug]);
    assert(ls.skip(1).skip(1) =~= seq!["slug: "@ + fm.slug]);
    assert(ls.skip(1).skip(1).skip(1) =~= Seq::<Seq<char>>::empty());
    assert(parse_fm(ls, e) == parse_fm(ls.skip(1), a1));
    assert(parse_fm(ls.skip(1), a1) == parse_fm(ls.skip(1).skip(1), a2));
    assert(parse_fm(ls.skip(1).skip(1), a2) == parse_fm(ls.skip(1).skip(1).skip(1), a3));
    assert(parse_fm(ls.skip(1).skip(1).skip(1), a3) == Some(a3));
    assert(a3 =~= fm);
}

} // verus!
