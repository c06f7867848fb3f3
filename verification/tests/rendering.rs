use blog::errors::{error_post, status_of, u16_to_string, LoadError};
use blog::post::Post;
use blog::registry::{references_partials_exec, State};
use blog::routes::post_path;

fn sample_post() -> Post {
    let mut p = Post::new();
    p.title = String::from("T");
    p.slug = String::from("s");
    p.url = String::from("u");
    p.description = String::from("D");
    p.content = String::from("<p>C</p>");
    p
}

#[test]
fn render_substitutes_content() {
    let mut state = State::new();
    assert!(state.template("post.html", "<main>{{{content}}}</main>"));
    let out = state.render("post.html", &sample_post()).unwrap();
    assert_eq!(out, "<main><p>C</p></main>");
}

#[test]
fn render_sees_every_field() {
    let mut state = State::new();
    assert!(state.template("post.html", "{{title}}|{{slug}}|{{url}}|{{description}}"));
    let out = state.render("post.html", &sample_post()).unwrap();
    assert_eq!(out, "T|s|u|D");
}

#[test]
fn render_twice_gives_equal_output() {
    let mut state = State::new();
    assert!(state.template("post.html", "<h1>{{title}}</h1>{{{content}}}"));
    let a = state.render("post.html", &sample_post()).unwrap();
    let b = state.render("post.html", &sample_post()).unwrap();
    assert_eq!(a, b);
}

#[test]
fn partial_references_are_detected() {
    assert!(references_partials_exec("A{{> header}}B"));
    assert!(references_partials_exec("{{~> x}}"));
    assert!(references_partials_exec("{{#> x}}fallback{{/x}}"));
    assert!(references_partials_exec("{{ > x}}"));
    assert!(references_partials_exec("{{\n#\n>\nx}}"));
    assert!(!references_partials_exec(""));
    assert!(!references_partials_exec("<main>{{content}}</main>"));
    assert!(!references_partials_exec("{{#if x}}a > b{{/if}}"));
    assert!(!references_partials_exec("{{title}} > {{slug}}"));
}

#[test]
fn bad_template_is_rejected() {
    let mut state = State::new();
    assert!(!state.template("post.html", "{{#if broken"));
}

#[test]
fn missing_template_fails_to_render() {
    let state = State::new();
    assert!(state.render("post.html", &sample_post()).is_err());
}

#[test]
fn error_post_carries_status_line() {
    let p = error_post(404, "Not Found");
    assert_eq!(p.content, "404 Not Found");
    assert_eq!(p.title, "");
    assert_eq!(p.url, "");
    let p = error_post(500, "Internal Server Error");
    assert_eq!(p.content, "500 Internal Server Error");
}

#[test]
fn error_page_renders_through_template() {
    let mut state = State::new();
    assert!(state.template("post.html", "<main>{{content}}</main>"));
    let out = state.render("post.html", &error_post(404, "Not Found")).unwrap();
    assert_eq!(out, "<main>404 Not Found</main>");
}

#[test]
fn loader_failures_map_to_statuses() {
    assert_eq!(status_of(LoadError::NotFound), 404);
    assert_eq!(status_of(LoadError::ReadError), 500);
    assert_eq!(status_of(LoadError::MalformedFrontMatter), 500);
}

#[test]
fn decimal_formatting() {
    assert_eq!(u16_to_string(0), "0");
    assert_eq!(u16_to_string(7), "7");
    assert_eq!(u16_to_string(404), "404");
    assert_eq!(u16_to_string(500), "500");
    assert_eq!(u16_to_string(65535), "65535");
}

#[test]
fn dated_post_path() {
    assert_eq!(post_path("2024", "01", "01", "hello"), "posts/2024/01/01/hello.md");
}
