use clippy_core::html::{extract_title, strip_html};
use clippy_core::state::AppState;
use clippy_core::web::page_title;

#[test]
fn strips_tags_to_words() {
    assert_eq!(strip_html(&String::from("<p>Hello <b>World</b></p>")), "Hello World");
}

#[test]
fn excludes_script_content() {
    let html = String::from("<p>Before</p><script>var secretCode = 1;</script><p>After</p>");
    let text = strip_html(&html);
    assert_eq!(text, "Before After");
    assert!(!text.contains("secretCode"));
}

#[test]
fn excludes_style_content() {
    let html = String::from("<div>Shown</div><style>body { color: red; }</style><div>Too</div>");
    let text = strip_html(&html);
    assert_eq!(text, "Shown Too");
    assert!(!text.contains("color"));
}

#[test]
fn collapses_whitespace() {
    assert_eq!(strip_html(&String::from("  Hello\n\n\t  World  ")), "Hello World");
}

#[test]
fn truncates_to_exactly_ten_thousand() {
    let long = "a".repeat(20000);
    let text = strip_html(&long);
    assert_eq!(text.len(), 10000);
    assert!(text.bytes().all(|b| b == b'a'));
}

#[test]
fn short_output_is_not_truncated() {
    let exact = "b".repeat(10000);
    assert_eq!(strip_html(&exact).len(), 10000);
    let shorter = "c".repeat(9999);
    assert_eq!(strip_html(&shorter).len(), 9999);
}

#[test]
fn title_case_insensitive_and_decoded() {
    let html = String::from("<html><TITLE>My &amp; Page</TITLE></html>");
    let url = String::from("https://example.com/a");
    assert_eq!(page_title(&html, &url), "My & Page");
}

#[test]
fn title_falls_back_to_host() {
    let html = String::from("<html><body>no title here</body></html>");
    let url = String::from("https://example.com/some/page");
    assert_eq!(page_title(&html, &url), "example.com");
}

#[test]
fn empty_title_falls_back_to_host() {
    let html = String::from("<title>   </title>");
    let url = String::from("https://rust-lang.org/");
    assert_eq!(page_title(&html, &url), "rust-lang.org");
}

#[test]
fn unparseable_url_falls_back_to_itself() {
    let html = String::from("<p>no title</p>");
    let url = String::from("not a url at all");
    assert_eq!(page_title(&html, &url), "not a url at all");
}

#[test]
fn extract_title_alone() {
    assert_eq!(
        extract_title(&String::from("<title> Hi &gt; there </title>")),
        Some(String::from("Hi > there"))
    );
    assert_eq!(extract_title(&String::from("<h1>Hi</h1>")), None);
}

#[test]
fn entity_passes_are_sequential() {
    // The entity table is applied pass by pass, so "&amp;lt;" decodes twice.
    assert_eq!(extract_title(&String::from("<title>&amp;lt;</title>")), Some(String::from("<")));
}

#[test]
fn initial_file_is_consumed_once() {
    let mut state = AppState::new(Some(String::from("/repo/bookmarks.json")));
    assert_eq!(state.get_initial_file(), Some(String::from("/repo/bookmarks.json")));
    assert_eq!(state.get_initial_file(), None);
}
