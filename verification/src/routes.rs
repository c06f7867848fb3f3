//! The one computed route mapping: a dated post request becomes the path
//! of its markdown source file.

use vstd::prelude::*;

verus! {

/// The source file for a dated post request:
/// `posts/{year}/{month}/{day}/{id}.md`.
pub fn post_path(year: &str, month: &str, day: &str, id: &str) -> (r: String)
    ensures
        r@ == "posts/"@ + year@ + "/"@ + month@ + "/"@ + day@ + "/"@ + id@ + ".md"@,
{
    let mut s = String::from_str("posts/");
    s.append(year);
    s.append("/");
    s.append(month);
    s.append("/");
    s.append(day);
    s.append("/");
    s.append(id);
    s.append(".md");
    proof {
        assert(s@ =~= "posts/"@ + year@ + "/"@ + month@ + "/"@ + day@ + "/"@ + id@ + ".md"@);
    }
    s
}

} // verus!
