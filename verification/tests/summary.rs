use actions_rs::summary::{esc_attr, esc_text, MAX_BYTES};
use actions_rs::{Cell, Error, Summary, SummaryText};

fn t(s: &str) -> SummaryText {
    SummaryText::escaped(s)
}

#[test]
fn heading_clamps_level() {
    let mut s = Summary::new();
    s.heading(t("Top"), 9);
    assert_eq!(s.stringify(), "<h6>Top</h6>\n");
}

#[test]
fn html_metachars_are_escaped() {
    let mut s = Summary::new();
    s.code_block("DEMO_FLAG<<d & a>b", None);
    assert_eq!(
        s.stringify(),
        "<pre><code>DEMO_FLAG&lt;&lt;d &amp; a&gt;b</code></pre>\n"
    );

    let mut h = Summary::new();
    h.heading(t("a < b & c"), 2);
    assert_eq!(h.stringify(), "<h2>a &lt; b &amp; c</h2>\n");

    let mut l = Summary::new();
    l.link(t("x"), "https://e.com/?a=1\"&b=2");
    assert_eq!(
        l.stringify(),
        "<a href=\"https://e.com/?a=1&quot;&amp;b=2\">x</a>\n"
    );

    let mut r = Summary::new();
    r.raw("<b>kept</b>", false);
    assert_eq!(r.stringify(), "<b>kept</b>");
}

#[test]
fn raw_html_is_opt_in() {
    let mut s = Summary::new();
    s.details(
        SummaryText::html("<b>open</b>"),
        SummaryText::html("<p>surprise</p>"),
    );
    assert_eq!(
        s.stringify(),
        "<details><summary><b>open</b></summary><p>surprise</p></details>\n"
    );
}

#[test]
fn chaining_builds_expected_html() {
    let mut s = Summary::new();
    s.heading(t("Report"), 2)
        .list(vec![t("a"), t("b")], false)
        .code_block("cargo test", Some("sh"))
        .separator();
    assert_eq!(
        s.stringify(),
        "<h2>Report</h2>\n<ul><li>a</li><li>b</li></ul>\n\
         <pre lang=\"sh\"><code>cargo test</code></pre>\n<hr>\n"
    );
}

#[test]
fn table_with_header_and_spans() {
    let mut s = Summary::new();
    s.table(vec![
        vec![Cell::header(t("H1")), Cell::header(t("H2"))],
        vec![Cell::new(t("a")).colspan(2)],
    ]);
    assert_eq!(
        s.stringify(),
        "<table><tr><th colspan=\"1\" rowspan=\"1\">H1</th>\
         <th colspan=\"1\" rowspan=\"1\">H2</th></tr>\
         <tr><td colspan=\"2\" rowspan=\"1\">a</td></tr></table>\n"
    );
}

#[test]
fn span_zero_is_clamped_to_one() {
    let mut s = Summary::new();
    s.table(vec![vec![Cell::new(t("x")).colspan(0).rowspan(0)]]);
    assert_eq!(
        s.stringify(),
        "<table><tr><td colspan=\"1\" rowspan=\"1\">x</td></tr></table>\n"
    );
}

#[test]
fn oversized_buffer_rejected() {
    let mut s = Summary::new();
    s.raw(&"x".repeat(MAX_BYTES + 1), false);
    let e = s.write_overwrite(true).unwrap_err();
    assert!(matches!(e, Error::SummaryTooLarge { bytes } if bytes == MAX_BYTES + 1));
    let e = s.write(None).unwrap_err();
    assert!(matches!(e, Error::SummaryTooLarge { bytes } if bytes == MAX_BYTES + 1));
}

#[test]
fn empty_and_clear() {
    let mut s = Summary::new();
    assert!(s.is_empty());
    s.raw("hi", true);
    assert!(!s.is_empty());
    s.clear();
    assert!(s.is_empty());
}

#[test]
fn doc_example_builds() {
    let mut s = Summary::new();
    s.heading(t("Build"), 2).code_block("cargo test", Some("sh"));
    assert_eq!(
        s.stringify(),
        "<h2>Build</h2>\n<pre lang=\"sh\"><code>cargo test</code></pre>\n"
    );
}

#[test]
fn write_decisions() {
    let mut s = Summary::new();
    s.raw("abc", false);
    assert_eq!(s.write(None), Ok(false));
    assert_eq!(s.write(Some(0)), Ok(true));
    assert_eq!(s.write(Some((MAX_BYTES - 3) as u64)), Ok(true));
    assert_eq!(
        s.write(Some((MAX_BYTES - 2) as u64)),
        Err(Error::SummaryTooLarge { bytes: MAX_BYTES + 1 })
    );
    assert_eq!(s.write(Some(u64::MAX)), Err(Error::SummaryTooLarge { bytes: usize::MAX }));
    assert_eq!(s.write_overwrite(false), Ok(false));
    assert_eq!(s.write_overwrite(true), Ok(true));
    assert_eq!(s.stringify(), "abc");
}

#[test]
fn size_counts_utf8_bytes() {
    let mut s = Summary::new();
    s.raw(&"é".repeat(MAX_BYTES / 2 + 1), false);
    assert_eq!(s.write(None), Err(Error::SummaryTooLarge { bytes: MAX_BYTES + 2 }));
}

#[test]
fn remaining_builders() {
    let mut s = Summary::new();
    s.image("a.png", "A \"pic\"", Some((20, 10)))
        .image("b.png", "<b>", None)
        .quote(t("q"), Some("https://x/?a&b"))
        .quote(SummaryText::html("<i>q</i>"), None)
        .list(vec![t("1 < 2")], true)
        .break_()
        .eol()
        .raw("end", true);
    assert_eq!(
        s.stringify(),
        "<img src=\"a.png\" alt=\"A &quot;pic&quot;\" width=\"20\" height=\"10\">\n\
         <img src=\"b.png\" alt=\"&lt;b&gt;\">\n\
         <blockquote cite=\"https://x/?a&amp;b\">q</blockquote>\n\
         <blockquote><i>q</i></blockquote>\n\
         <ol><li>1 &lt; 2</li></ol>\n<br>\n\nend\n"
    );
}

#[test]
fn escape_tables() {
    assert_eq!(esc_text("&<>\"'"), "&amp;&lt;&gt;\"'");
    assert_eq!(esc_attr("&<>\"'"), "&amp;&lt;&gt;&quot;'");
    assert_eq!(SummaryText::escaped("<x>").into_html(), "&lt;x&gt;");
    assert_eq!(SummaryText::html("<x>").into_html(), "<x>");
}

#[test]
fn owned_text_converts_to_escaped_text() {
    let owned = String::from("a<b");
    assert_eq!(SummaryText::from(&owned), SummaryText::escaped("a<b"));
    assert_eq!(SummaryText::from(owned), SummaryText::escaped("a<b"));
    let s = Summary::default();
    assert!(s.is_empty());
}
