//! The template registry.  A `State` holds one handlebars registry,
//! filled once at startup and read-only afterwards.  Rendering resolves
//! partial references against the whole registry, so its outcome —
//! success with the produced HTML, or failure — is a fixed function of
//! the full template map, the template name and the document's fields.

use vstd::prelude::*;
use crate::errors::RenderError;
use crate::post::{Post, PostView};

verus! {

#[verifier::external_type_specification]
#[verifier::external_body]
pub struct ExHandlebars<'reg>(handlebars::Handlebars<'reg>);

/// The templates a registry holds, by name, as their source text.  Every
/// registry here is built by `State::new` and filled only through
/// `State::template`, so it keeps handlebars' default settings and
/// built-in helpers, and this map determines its whole behaviour.
pub uninterp spec fn templates(h: handlebars::Handlebars<'static>) -> Map<Seq<char>, Seq<char>>;

/// Whether a template source compiles.  With the default registry
/// settings, compile success is a function of the source text alone.
pub uninterp spec fn tpl_compiles(source: Seq<char>) -> bool;

/// The outcome of rendering the named template of a registry holding
/// `templates` over a data map: the produced HTML, or `None` for
/// failure.  With the default settings and built-in helpers the outcome
/// is a fixed function of these three arguments; the whole map is one of
/// them because partial references resolve against every registered
/// template.
pub uninterp spec fn render_result(
    templates: Map<Seq<char>, Seq<char>>,
    name: Seq<char>,
    data: Map<Seq<char>, Seq<char>>,
) -> Option<Seq<char>>;

/// A character the template grammar lets stand between `{{` and the `>`
/// of a partial reference: its whitespace, the tilde of whitespace
/// control, and the `#` of the block form.
pub open spec fn marker_filler(c: char) -> bool {
    c == ' ' || c == '\t' || c == '\n' || c == '\r' || c == '~' || c == '#'
}

/// A partial-reference marker in `s`: `{{` at `i`, then filler
/// characters only, then `>` at `j`.
pub open spec fn partial_marker_at(s: Seq<char>, i: int, j: int) -> bool {
    0 <= i && i + 2 <= j && j < s.len() && s[i] == '{' && s[i + 1] == '{' && s[j] == '>' && (forall|
        k: int,
    |
        i + 2 <= k < j ==> marker_filler(s[k]))
}

/// Whether a template source references partials, in any of the
/// grammar's forms (`{{> p}}`, `{{~> p}}`, `{{#> p}}`, with any
/// whitespace).  Over-approximate on purpose: a marker inside raw or
/// escaped text also counts, so a source without one certainly expands
/// no partial.
pub open spec fn references_partials(s: Seq<char>) -> bool {
    exists|i: int, j: int| partial_marker_at(s, i, j)
}

/// Executable form of `marker_filler`.
fn marker_filler_exec(c: char) -> (b: bool)
    ensures
        b == marker_filler(c),
{
    c == ' ' || c == '\t' || c == '\n' || c == '\r' || c == '~' || c == '#'
}

/// Whether a template source references partials, as
/// `references_partials` describes.
pub fn references_partials_exec(source: &str) -> (b: bool)
    ensures
        b == references_partials(source@),
{
    let n = source.unicode_len();
    let mut i: usize = 0;
    while n >= 2 && i <= n - 2
        invariant
            0 <= i <= n,
            n == source@.len(),
            forall|i2: int, j2: int| partial_marker_at(source@, i2, j2) ==> i2 >= i,
        decreases n - i,
    {
        if source.get_char(i) == '{' && source.get_char(i + 1) == '{' {
            let mut j: usize = i + 2;
            while j < n && marker_filler_exec(source.get_char(j))
                invariant
                    i + 2 <= j <= n,
                    n == source@.len(),
                    forall|k: int| i + 2 <= k < j ==> marker_filler(source@[k]),
                decreases n - j,
            {
                j += 1;
            }
            if j < n && source.get_char(j) == '>' {
                proof {
                    assert(partial_marker_at(source@, i as int, j as int));
                }
                return true;
            }
            proof {
                assert forall|j2: int| !partial_marker_at(source@, i as int, j2) by {
                    if partial_marker_at(source@, i as int, j2) {
                        if j2 < j {
                            assert(marker_filler(source@[j2]));
                            assert(source@[j2] == '>');
                        } else if j2 == j {
                            assert(source@[j as int] == '>');
                        } else {
                            assert(marker_filler(source@[j as int]));
                        }
                    }
                }
            }
        } else {
            proof {
                assert forall|j2: int| !partial_marker_at(source@, i as int, j2) by {
                    if partial_marker_at(source@, i as int, j2) {
                        assert(source@[i as int] == '{' && source@[i as int + 1] == '{');
                    }
                }
            }
        }
        i += 1;
    }
    proof {
        assert forall|i2: int, j2: int| !partial_marker_at(source@, i2, j2) by {
            if partial_marker_at(source@, i2, j2) {
                assert(i2 >= i);
                assert(j2 < n);
            }
        }
    }
    false
}

/// The data map a document is rendered with: one entry per field.
pub open spec fn post_data(p: PostView) -> Map<Seq<char>, Seq<char>> {
    map![
        "slug"@ => p.slug,
        "url"@ => p.url,
        "title"@ => p.title,
        "description"@ => p.description,
        "content"@ => p.content,
    ]
}

/// Relies on `handlebars::Handlebars::new`: constructs a fresh registry.
/// Which templates it holds is left unstated; callers learn the contents
/// only through `State::template`.
#[verifier::external_body]
fn hb_new() -> handlebars::Handlebars<'static> {
    handlebars::Handlebars::new()
}

/// Relies on `handlebars::Handlebars::register_template_string`: the
/// source compiles or not by its text alone; on success the template is
/// stored under its name, and a source that does not compile leaves the
/// registry unchanged.
#[verifier::external_body]
fn hb_register(h: &mut handlebars::Handlebars<'static>, name: &str, source: &str) -> (ok: bool)
    ensures
        ok == tpl_compiles(source@),
        ok ==> templates(*final(h)) == templates(*old(h)).insert(name@, source@),
        !ok ==> templates(*final(h)) == templates(*old(h)),
{
    h.register_template_string(name, source).is_ok()
}

/// Relies on `handlebars::Handlebars::render`: the outcome — success
/// with its output, or failure — is a fixed function of the registry's
/// template map, the name and the data map, and an unregistered name
/// always fails.  Handlebars rejects only a template's direct inclusion
/// of itself, so partials that include one another recurse without
/// bound; the `requires` keeps partial expansion from ever starting: the
/// rendered template references none, and a missing name fails before
/// any expansion.
#[verifier::external_body]
fn hb_render(h: &handlebars::Handlebars<'static>, name: &str, post: &Post) -> (r: Option<String>)
    requires
        templates(*h).contains_key(name@) ==> !references_partials(templates(*h)[name@]),
    ensures
        (r is Some) == (render_result(templates(*h), name@, post_data(post@)) is Some),
        r matches Some(s) ==> s@ == render_result(templates(*h), name@, post_data(post@)).unwrap(),
        !templates(*h).contains_key(name@) ==> r is None,
{
    let mut data = std::collections::BTreeMap::new();
    data.insert("slug", &post.slug);
    data.insert("url", &post.url);
    data.insert("title", &post.title);
    data.insert("description", &post.description);
    data.insert("content", &post.content);
    h.render(name, &data).ok()
}

/// Process-wide rendering state: the compiled template registry.
pub struct State {
    registry: handlebars::Handlebars<'static>,
}

impl State {
    /// The templates this state holds, by name.
    pub closed spec fn templates_of(&self) -> Map<Seq<char>, Seq<char>> {
        templates(self.registry)
    }

    /// A state with a fresh registry.  Which templates it holds is
    /// unstated until `template` registers one.
    pub fn new() -> State {
        State { registry: hb_new() }
    }

    /// Registers a template under a name.  Registration succeeds exactly
    /// when the source compiles; the state then holds the source under
    /// that name, and a failure changes nothing.
    pub fn template(&mut self, name: &str, source: &str) -> (ok: bool)
        ensures
            ok == tpl_compiles(source@),
            ok ==> final (self).templates_of() == old(self).templates_of().insert(name@, source@),
            !ok ==> final (self).templates_of() == old(self).templates_of(),
    {
        hb_register(&mut self.registry, name, source)
    }

    /// Renders a document through the named template.  The outcome is a
    /// fixed function of the held templates, the name and the document's
    /// fields: it succeeds exactly when that function does, success
    /// returns exactly the rendered output, an unregistered name always
    /// fails, and a failure reports nothing else.  The rendered template
    /// must reference no partials: on such a template handlebars can
    /// recurse without bound, so this renderer refuses it; callers check
    /// a source with `references_partials_exec` before registering it.
    pub fn render(&self, name: &str, post: &Post) -> (r: Result<String, RenderError>)
        requires
            self.templates_of().contains_key(name@) ==> !references_partials(
                self.templates_of()[name@],
            ),
        ensures
            (r is Ok) == (render_result(self.templates_of(), name@, post_data(post@)) is Some),
            r matches Ok(s) ==> s@ == render_result(
                self.templates_of(),
                name@,
                post_data(post@),
            ).unwrap(),
            r is Err ==> r == Err::<String, RenderError>(RenderError::RenderFailed),
            !self.templates_of().contains_key(name@) ==> r is Err,
    {
        match hb_render(&self.registry, name, post) {
            Option::Some(s) => Ok(s),
            Option::None => Err(RenderError::RenderFailed),
        }
    }
}

} // verus!

