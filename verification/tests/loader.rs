use blog::errors::LoadError;
use blog::post::{strip_md_suffix, Post};

#[test]
fn no_front_matter_all_body() {
    let r = Post::from_content("a.md", "just *body* text\n").unwrap();
    assert_eq!(r.title, "");
    assert_eq!(r.description, "");
    assert_eq!(r.slug, "");
    assert_eq!(r.url, "a");
    assert_eq!(r.content, "<p>just <em>body</em> text</p>\n");
}

#[test]
fn title_and_h1_body() {
    let r = Post::from_content("p.md", "---\ntitle: Hello\n---\n# Body\n").unwrap();
    assert_eq!(r.title, "Hello");
    assert_eq!(r.content, "<h1>Body</h1>\n");
    assert!(r.content.contains("<h1>"));
    assert!(r.content.contains("Body"));
}

#[test]
fn url_is_path_without_md_suffix() {
    let r = Post::from_content("posts/2024/01/01/hello.md", "x").unwrap();
    assert_eq!(r.url, "posts/2024/01/01/hello");
}

#[test]
fn strip_md_suffix_only_strips_md() {
    assert_eq!(strip_md_suffix("posts/index.md"), "posts/index");
    assert_eq!(strip_md_suffix("notes.txt"), "notes.txt");
    assert_eq!(strip_md_suffix("plain"), "plain");
}

#[test]
fn line_without_colon_is_malformed() {
    let r = Post::from_content("p.md", "---\njustcontent\n---\nBody");
    assert_eq!(r.unwrap_err(), LoadError::MalformedFrontMatter);
}

#[test]
fn missing_second_delimiter_is_malformed() {
    let r = Post::from_content("p.md", "---\ntitle: X\n");
    assert_eq!(r.unwrap_err(), LoadError::MalformedFrontMatter);
    let r = Post::from_content("p.md", "---\n");
    assert_eq!(r.unwrap_err(), LoadError::MalformedFrontMatter);
    // the closing marker must include its newline
    let r = Post::from_content("p.md", "---\ntitle: X\n---");
    assert_eq!(r.unwrap_err(), LoadError::MalformedFrontMatter);
}

#[test]
fn loading_twice_is_identical() {
    let path = "posts/2024/01/01/hello.md";
    let text = "---\ntitle: Hello\nslug: hello\n---\n# Body\n";
    let a = Post::from_content(path, text).unwrap();
    let b = Post::from_content(path, text).unwrap();
    assert_eq!(a, b);
}

#[test]
fn last_write_wins_unknown_ignored_blank_lines_skipped() {
    let text = "---\ntitle: A\n\nfoo: z\ntitle: B\nslug: s-1\ndescription:  d \n---\nBody";
    let r = Post::from_content("p.md", text).unwrap();
    assert_eq!(r.title, "B");
    assert_eq!(r.slug, "s-1");
    assert_eq!(r.description, "d");
    assert_eq!(r.content, "<p>Body</p>\n");
}

#[test]
fn value_keeps_inner_colon_and_is_trimmed() {
    let r = Post::from_content("p.md", "---\ntitle:   a: b  \n---\nx").unwrap();
    assert_eq!(r.title, "a: b");
}

#[test]
fn unicode_whitespace_is_trimmed_from_values() {
    let r = Post::from_content("p.md", "---\ntitle: \u{a0}Hello\u{2003}\u{a0}\n---\nx").unwrap();
    assert_eq!(r.title, "Hello");
}

#[test]
fn later_delimiter_is_body_text() {
    let r = Post::from_content("p.md", "---\ntitle: T\n---\nA\n---\nB\n").unwrap();
    assert_eq!(r.title, "T");
    assert!(r.content.contains("A"));
    assert!(r.content.contains("B"));
}

#[test]
fn empty_front_matter_block() {
    let r = Post::from_content("p.md", "---\n---\nBody").unwrap();
    assert_eq!(r.title, "");
    assert_eq!(r.slug, "");
    assert_eq!(r.description, "");
    assert_eq!(r.content, "<p>Body</p>\n");
}

#[test]
fn empty_block_and_empty_body() {
    let r = Post::from_content("p.md", "---\n---\n").unwrap();
    assert_eq!(r.content, "");
}

#[test]
fn heading_attributes_are_enabled() {
    let r = Post::from_content("p.md", "## Title {#custom-id}\n").unwrap();
    assert!(r.content.contains("id=\"custom-id\""));
}

#[test]
fn new_post_is_all_empty() {
    let p = Post::new();
    assert_eq!(p.slug, "");
    assert_eq!(p.url, "");
    assert_eq!(p.title, "");
    assert_eq!(p.description, "");
    assert_eq!(p.content, "");
}
