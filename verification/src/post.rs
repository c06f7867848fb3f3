//! The document loader.  A source file's text is split into an optional
//! front-matter block and a markdown body, the block is parsed into the
//! document's metadata fields, the body is converted to HTML, and the
//! document's `url` is the source path with a trailing `.md` removed.

use vstd::prelude::*;
use crate::errors::LoadError;
use crate::frontmatter::{fm_empty, parse_fm, parse_front_matter};
use crate::text::split_lines;
use crate::text::split_lines_exec;

verus! {

/// A loaded document: metadata from the front-matter block, `url` derived
/// from the source path, and `content` holding the body as HTML.
#[derive(Debug, PartialEq, Eq)]
pub struct Post {
    pub slug: String,
    pub url: String,
    pub title: String,
    pub description: String,
    pub content: String,
}

/// The mathematical image of a `Post`: each field as a character sequence.
#[verifier::ext_equal]
pub struct PostView {
    pub slug: Seq<char>,
    pub url: Seq<char>,
    pub title: Seq<char>,
    pub description: Seq<char>,
    pub content: Seq<char>,
}

impl View for Post {
    type V = PostView;

    open spec fn view(&self) -> PostView {
        PostView {
            slug: self.slug@,
            url: self.url@,
            title: self.title@,
            description: self.description@,
            content: self.content@,
        }
    }
}

/// The HTML that the markdown converter produces for a body.  The output
/// is a fixed function of the text alone; nothing further is assumed of
/// it here.
pub uninterp spec fn html_of(md: Seq<char>) -> Seq<char>;

/// Relies on `pulldown_cmark::Parser::new_ext` and
/// `pulldown_cmark::html::push_html`: converts markdown to an HTML
/// fragment, with heading attributes enabled; the result depends on the
/// input text alone.
#[verifier::external_body]
fn markdown_to_html(md: &str) -> (r: String)
    ensures
        r@ == html_of(md@),
{
    let mut opts = pulldown_cmark::Options::empty();
    opts.insert(pulldown_cmark::Options::ENABLE_HEADING_ATTRIBUTES);
    let parser = pulldown_cmark::Parser::new_ext(md, opts);
    let mut out = String::new();
    pulldown_cmark::html::push_html(&mut out, parser);
    out
}

/// The front-matter delimiter: three dashes and a newline.
pub open spec fn fm_delim() -> Seq<char> {
    seq!['-', '-', '-', '\n']
}

/// A file has front-matter exactly when its first four characters are the
/// delimiter.
pub open spec fn has_front_matter(s: Seq<char>) -> bool {
    s.len() >= 4 && s.subrange(0, 4) == fm_delim()
}

/// The position of the first delimiter occurrence at or after `i`, or
/// `s.len()` when there is none.
pub open spec fn find_delim(s: Seq<char>, i: int) -> int
    decreases s.len() - i,
{
    if i + 4 > s.len() {
        s.len() as int
    } else if s.subrange(i, i + 4) == fm_delim() {
        i
    } else {
        find_delim(s, i + 1)
    }
}

/// Where the closing delimiter of the front-matter block stands: the
/// first occurrence after the opening one.
pub open spec fn second_delim_pos(s: Seq<char>) -> int {
    find_delim(s, 4)
}

/// Whether a closing delimiter exists at all.
pub open spec fn has_second_delim(s: Seq<char>) -> bool {
    second_delim_pos(s) + 4 <= s.len()
}

/// Whether the path ends in `.md`.
pub open spec fn ends_with_md(p: Seq<char>) -> bool {
    p.len() >= 3 && p.subrange(p.len() - 3, p.len() as int) == ".md"@
}

/// The path with a trailing `.md` removed, untouched otherwise.
pub open spec fn strip_md(p: Seq<char>) -> Seq<char> {
    if ends_with_md(p) {
        p.subrange(0, p.len() - 3)
    } else {
        p
    }
}

/// A path this loader accepts: non-empty, and not the bare suffix, so
/// that the derived `url` is never empty.
pub open spec fn valid_source_path(p: Seq<char>) -> bool {
    p.len() > 0 && (ends_with_md(p) ==> p.len() > 3)
}

/// What loading produces for a path and a file's text: the whole text as
/// body when no front-matter delimiter opens the file; otherwise the text
/// between the first two delimiters parsed as metadata and the remainder
/// as body, malformed when the closing delimiter is missing or a
/// metadata line has no colon.
pub open spec fn spec_load(path: Seq<char>, text: Seq<char>) -> Result<PostView, LoadError> {
    if !has_front_matter(text) {
        Ok(
            PostView {
                slug: Seq::empty(),
                url: strip_md(path),
                title: Seq::empty(),
                description: Seq::empty(),
                content: html_of(text),
            },
        )
    } else if !has_second_delim(text) {
        Err(LoadError::MalformedFrontMatter)
    } else {
        let p = second_delim_pos(text);
        let vars = text.subrange(4, p);
        let body = text.subrange(p + 4, text.len() as int);
        match parse_fm(split_lines(vars), fm_empty()) {
            Option::None => Err(LoadError::MalformedFrontMatter),
            Option::Some(fm) => Ok(
                PostView {
                    slug: fm.slug,
                    url: strip_md(path),
                    title: fm.title,
                    description: fm.description,
                    content: html_of(body),
                },
            ),
        }
    }
}

/// A loaded result seen through the documents' views.
pub open spec fn view_result(r: Result<Post, LoadError>) -> Result<PostView, LoadError> {
    match r {
        Result::Ok(p) => Ok(p@),
        Result::Err(e) => Err(e),
    }
}

/// Whether the file's first four characters are the delimiter.
fn starts_with_fm(s: &str) -> (b: bool)
    ensures
        b == has_front_matter(s@),
{
    let n = s.unicode_len();
    if n < 4 {
        return false;
    }
    let b = s.get_char(0) == '-' && s.get_char(1) == '-' && s.get_char(2) == '-' && s.get_char(3)
        == '\n';
    proof {
        if b {
            assert(s@.subrange(0, 4) =~= fm_delim());
        }
        if s@.subrange(0, 4) == fm_delim() {
            assert(s@[0] == s@.subrange(0, 4)[0]);
            assert(s@[1] == s@.subrange(0, 4)[1]);
            assert(s@[2] == s@.subrange(0, 4)[2]);
            assert(s@[3] == s@.subrange(0, 4)[3]);
        }
    }
    b
}

/// The first delimiter occurrence at or after `from`, or the length when
/// none exists.
fn find_delim_exec(s: &str, from: usize) -> (r: usize)
    requires
        from <= s@.len(),
    ensures
        r == find_delim(s@, from as int),
        from <= r <= s@.len(),
    decreases s@.len() - from,
{
    let n = s.unicode_len();
    let mut i: usize = from;
    while n >= 4 && i <= n - 4
        invariant
            from <= i <= n,
            n == s@.len(),
            find_delim(s@, from as int) == find_delim(s@, i as int),
        decreases n - i,
    {
        let hit = s.get_char(i) == '-' && s.get_char(i + 1) == '-' && s.get_char(i + 2) == '-'
            && s.get_char(i + 3) == '\n';
        proof {
            if hit {
                assert(s@.subrange(i as int, i as int + 4) =~= fm_delim());
            }
            if s@.subrange(i as int, i as int + 4) == fm_delim() {
                assert(s@[i as int] == s@.subrange(i as int, i as int + 4)[0]);
                assert(s@[i as int + 1] == s@.subrange(i as int, i as int + 4)[1]);
                assert(s@[i as int + 2] == s@.subrange(i as int, i as int + 4)[2]);
                assert(s@[i as int + 3] == s@.subrange(i as int, i as int + 4)[3]);
            }
        }
        if hit {
            proof {
                assert(find_delim(s@, i as int) == i);
            }
            return i;
        }
        proof {
            assert(find_delim(s@, i as int) == find_delim(s@, i as int + 1));
        }
        i += 1;
    }
    proof {
        assert(find_delim(s@, i as int) == s@.len());
    }
    n
}

/// The path with a trailing `.md` removed, untouched otherwise.
pub fn strip_md_suffix(path: &str) -> (r: String)
    ensures
        r@ == strip_md(path@),
{
    let n = path.unicode_len();
    if n >= 3 {
        let ends = path.get_char(n - 3) == '.' && path.get_char(n - 2) == 'm' && path.get_char(
            n - 1,
        ) == 'd';
        proof {
            reveal_strlit(".md");
            let tail = path@.subrange(n as int - 3, n as int);
            if ends {
                assert(tail =~= ".md"@);
            }
            if tail == ".md"@ {
                assert(path@[n as int - 3] == tail[0]);
                assert(path@[n as int - 2] == tail[1]);
                assert(path@[n as int - 1] == tail[2]);
            }
        }
        if ends {
            return path.substring_char(0, n - 3).to_owned();
        }
    }
    path.to_owned()
}

impl Post {
    /// A fresh document with every field empty.
    pub fn new() -> (p: Post)
        ensures
            p@ == (PostView {
                slug: Seq::<char>::empty(),
                url: Seq::<char>::empty(),
                title: Seq::<char>::empty(),
                description: Seq::<char>::empty(),
                content: Seq::<char>::empty(),
            }),
    {
        let p = Post {
            slug: String::new(),
            url: String::new(),
            title: String::new(),
            description: String::new(),
            content: String::new(),
        };
        proof {
            assert(p@ =~= (PostView {
                slug: Seq::<char>::empty(),
                url: Seq::<char>::empty(),
                title: Seq::<char>::empty(),
                description: Seq::<char>::empty(),
                content: Seq::<char>::empty(),
            }));
        }
        p
    }

    /// Loads a document from a source path and the file's text, exactly as
    /// `spec_load` describes; the result depends on the two arguments
    /// alone.
    pub fn from_content(path: &str, text: &str) -> (r: Result<Post, LoadError>)
        requires
            valid_source_path(path@),
        ensures
            view_result(r) == spec_load(path@, text@),
            r matches Ok(p) ==> p.url@.len() > 0,
    {
        let url = strip_md_suffix(path);
        if !starts_with_fm(text) {
            let content = markdown_to_html(text);
            let p = Post {
                slug: String::new(),
                url,
                title: String::new(),
                description: String::new(),
                content,
            };
            proof {
                assert(p@ =~= spec_load(path@, text@).unwrap());
            }
            return Ok(p);
        }
        let n = text.unicode_len();
        let d = find_delim_exec(text, 4);
        if n - d < 4 {
            proof {
                assert(!has_second_delim(text@));
            }
            return Err(LoadError::MalformedFrontMatter);
        }
        let vars = text.substring_char(4, d);
        let body = text.substring_char(d + 4, n);
        let lines = split_lines_exec(vars);
        match parse_front_matter(&lines) {
            Option::None => Err(LoadError::MalformedFrontMatter),
            Option::Some(f) => {
                let content = markdown_to_html(body);
                let p = Post {
                    slug: f.slug,
                    url,
                    title: f.title,
                    description: f.description,
                    content,
                };
                proof {
                    assert(p@ =~= spec_load(path@, text@).unwrap());
                }
                Ok(p)
            },
        }
    }
}

/// A file without the opening delimiter loads successfully, keeps every
/// metadata field empty, and takes the whole text as its body.
pub proof fn lemma_no_front_matter_all_body(path: Seq<char>, text: Seq<char>)
    requires
        !has_front_matter(text),
    ensures
        spec_load(path, text) matches Ok(v) && v.title == Seq::<char>::empty() && v.description
            == Seq::<char>::empty() && v.slug == Seq::<char>::empty() && v.content == html_of(text)
            && v.url == strip_md(path),
{
}

/// Loading is a pure function of the path and the file's text: the same
/// unchanged input always specifies the same document.
pub proof fn lemma_load_deterministic(
    path1: Seq<char>,
    text1: Seq<char>,
    path2: Seq<char>,
    text2: Seq<char>,
)
    requires
        path1 == path2,
        text1 == text2,
    ensures
        spec_load(path1, text1) == spec_load(path2, text2),
{
}

} // verus!
