use mailwind::html::{html_to_text, remove_html_blocks, snippet_for_body};

#[test]
fn blocks_are_removed() {
    assert_eq!(remove_html_blocks("a<SCRIPT>x</Script>b", &["script"]), "a b");
    assert_eq!(remove_html_blocks("a<script src=x>b", &["script"]), "a b");
    assert_eq!(remove_html_blocks("a<script b", &["script"]), "a ");
    assert_eq!(remove_html_blocks("a<b>c", &["script"]), "a<b>c");
    assert_eq!(remove_html_blocks("<style>x</style><style>y</style>", &["style"]), "  ");
    assert_eq!(remove_html_blocks("\u{e9}<head>x</head>\u{e9}", &["head"]), "\u{e9} \u{e9}");
}

#[test]
fn tags_and_entities_become_text() {
    assert_eq!(html_to_text("<p>Hello</p>"), " Hello ");
    assert_eq!(html_to_text("a&amp;b&lt;c&gt;d&quot;e&#39;f&apos;g&nbsp;h"), "a&b<c>d\"e'f'g h");
    assert_eq!(html_to_text("a&unknown;b"), "a b");
    assert_eq!(html_to_text("a&averyveryverylongname b"), "alongname b");
    assert_eq!(html_to_text("a < b"), "a ");
    assert_eq!(html_to_text("<title>t</title>x<style>y</style>"), " x ");
}

#[test]
fn plain_text_stays_as_it_is() {
    assert_eq!(html_to_text("no tags here; really"), "no tags here; really");
}

#[test]
fn snippets_are_short() {
    assert_eq!(snippet_for_body("a \n b", "text/plain"), "a b");
    assert_eq!(snippet_for_body("<b>a</b> c", "TEXT/HTML"), "a c");
    assert_eq!(snippet_for_body("<b>a</b>", "text/plain"), "<b>a</b>");
    let long = "\u{e9}".repeat(500);
    assert_eq!(snippet_for_body(&long, "text/plain").chars().count(), 180);
}
