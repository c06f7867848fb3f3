//! Error taxonomy of the document loader, and the text of the error page
//! payload: a status code and its reason phrase, joined by a space.

use vstd::prelude::*;
use crate::post::Post;

verus! {

/// How loading a document fails: the source file is missing, it cannot be
/// read, or its front-matter block is structurally invalid.
#[derive(Clone, Copy, Debug, PartialEq, Eq, Structural)]
pub enum LoadError {
    NotFound,
    ReadError,
    MalformedFrontMatter,
}

/// The HTTP status a loader failure maps to: a missing source file is
/// not found, every other failure is a server error.
pub fn status_of(e: LoadError) -> (s: u16)
    ensures
        s == (if e == LoadError::NotFound {
            404u16
        } else {
            500u16
        }),
{
    match e {
        LoadError::NotFound => 404,
        LoadError::ReadError => 500,
        LoadError::MalformedFrontMatter => 500,
    }
}

/// How rendering through the template registry fails.
#[derive(Clone, Copy, Debug, PartialEq, Eq, Structural)]
pub enum RenderError {
    RenderFailed,
}

/// The decimal digit character for `d` in `0..10`.
pub open spec fn dec_digit(d: int) -> char {
    if d == 0 {
        '0'
    } else if d == 1 {
        '1'
    } else if d == 2 {
        '2'
    } else if d == 3 {
        '3'
    } else if d == 4 {
        '4'
    } else if d == 5 {
        '5'
    } else if d == 6 {
        '6'
    } else if d == 7 {
        '7'
    } else if d == 8 {
        '8'
    } else {
        '9'
    }
}

/// The decimal representation of `n`, without leading zeros (a single
/// `'0'` for zero).
pub open spec fn dec_str(n: int) -> Seq<char>
    decreases n,
{
    if n < 10 {
        seq![dec_digit(n)]
    } else {
        dec_str(n / 10).push(dec_digit(n % 10))
    }
}

/// The one-character string for a decimal digit.
fn dec_char_str(d: u16) -> (r: &'static str)
    requires
        d < 10,
    ensures
        r@ == seq![dec_digit(d as int)],
{
    if d == 0 {
        let s = "0";
        proof {
            reveal_strlit("0");
            assert(s@ =~= seq![dec_digit(0)]);
        }
        s
    } else if d == 1 {
        let s = "1";
        proof {
            reveal_strlit("1");
            assert(s@ =~= seq![dec_digit(1)]);
        }
        s
    } else if d == 2 {
        let s = "2";
        proof {
            reveal_strlit("2");
            assert(s@ =~= seq![dec_digit(2)]);
        }
        s
    } else if d == 3 {
        let s = "3";
        proof {
            reveal_strlit("3");
            assert(s@ =~= seq![dec_digit(3)]);
        }
        s
    } else if d == 4 {
        let s = "4";
        proof {
            reveal_strlit("4");
            assert(s@ =~= seq![dec_digit(4)]);
        }
        s
    } else if d == 5 {
        let s = "5";
        proof {
            reveal_strlit("5");
            assert(s@ =~= seq![dec_digit(5)]);
        }
        s
    } else if d == 6 {
        let s = "6";
        proof {
            reveal_strlit("6");
            assert(s@ =~= seq![dec_digit(6)]);
        }
        s
    } else if d == 7 {
        let s = "7";
        proof {
            reveal_strlit("7");
            assert(s@ =~= seq![dec_digit(7)]);
        }
        s
    } else if d == 8 {
        let s = "8";
        proof {
            reveal_strlit("8");
            assert(s@ =~= seq![dec_digit(8)]);
        }
        s
    } else {
        let s = "9";
        proof {
            reveal_strlit("9");
            assert(s@ =~= seq![dec_digit(9)]);
        }
        s
    }
}

/// The decimal representation of a status code.
pub fn u16_to_string(n: u16) -> (r: String)
    ensures
        r@ == dec_str(n as int),
    decreases n,
{
    if n < 10 {
        dec_char_str(n).to_owned()
    } else {
        let mut s = u16_to_string(n / 10);
        s.append(dec_char_str(n % 10));
        proof {
            assert(s@ =~= dec_str((n / 10) as int).push(dec_digit((n % 10) as int)));
        }
        s
    }
}

/// The error-page text for a status: the code, a space, and the reason
/// phrase, as in `404 Not Found`.
pub fn status_line(status: u16, reason: &str) -> (r: String)
    ensures
        r@ == dec_str(status as int) + seq![' '] + reason@,
{
    let mut s = u16_to_string(status);
    let space = " ";
    proof {
        reveal_strlit(" ");
        assert(space@ =~= seq![' ']);
    }
    s.append(space);
    s.append(reason);
    s
}

/// The error-page payload for a status: a document whose only content is
/// the status line, as in `404 Not Found`; every other field is empty.
pub fn error_post(status: u16, reason: &str) -> (p: Post)
    ensures
        p@.content == dec_str(status as int) + seq![' '] + reason@,
        p@.slug == Seq::<char>::empty(),
        p@.url == Seq::<char>::empty(),
        p@.title == Seq::<char>::empty(),
        p@.description == Seq::<char>::empty(),
{
    let content = status_line(status, reason);
    Post {
        slug: String::new(),
        url: String::new(),
        title: String::new(),
        description: String::new(),
        content,
    }
}

} // verus!
