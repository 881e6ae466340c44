use notekeeper::note::html::Html;
use notekeeper::note::markdown::{md_to_html, Markdown};
use notekeeper::note::util::local_timestamp;

#[test]
fn markdown_is_rendered_with_the_extensions() {
    assert_eq!(md_to_html("hello"), "<p>hello</p>\n");
    assert_eq!(md_to_html("~~gone~~"), "<p><del>gone</del></p>\n");
    assert_eq!(md_to_html("x^2^"), "<p>x<sup>2</sup></p>\n");
    assert_eq!(
        md_to_html("see http://example.com"),
        "<p>see <a href=\"http://example.com\">http://example.com</a></p>\n"
    );
    assert_eq!(md_to_html("<hr>"), "<hr>\n");
    assert_eq!(md_to_html("<script>x</script>"), "&lt;script>x&lt;/script>\n");
    assert!(md_to_html("- [x] done").contains("type=\"checkbox\""));
    assert!(md_to_html("|a|b|\n|-|-|\n|1|2|").contains("<table>"));
}

#[test]
fn to_html_renders_the_content() {
    let markdown = Markdown("# Title".to_owned());
    assert_eq!(markdown.to_html(), Html("<h1>Title</h1>\n".to_owned()));
    assert_eq!(markdown.to_html().0, md_to_html("# Title"));
}

#[test]
fn markdown_and_html_parse_and_print_as_they_are() {
    let markdown: Markdown = "*x*".parse().unwrap();
    assert_eq!(markdown, Markdown("*x*".to_owned()));
    assert_eq!(markdown.to_string(), "*x*");
    assert_eq!(markdown.as_str(), "*x*");
    assert_eq!(markdown.clone(), markdown);
    let html: Html = "<p>x</p>".parse().unwrap();
    assert_eq!(html, Html("<p>x</p>".to_owned()));
    assert_eq!(html.to_string(), "<p>x</p>");
    assert_eq!(html.as_str(), "<p>x</p>");
    assert_eq!(html.clone(), html);
}

#[test]
fn every_marker_of_the_link_is_resolved() {
    let mut markdown = Markdown("+http://a and +http://a/b and +http://a".to_owned());
    markdown.update_local_link("http://a", "/attachments/a");
    assert_eq!(
        markdown.0,
        "http://a ([local copy](/attachments/a)) and http://a ([local copy](/attachments/a))/b and http://a ([local copy](/attachments/a))"
    );
}

#[test]
fn the_local_timestamp_has_the_fixed_format() {
    let stamp = local_timestamp();
    let bytes = stamp.as_bytes();
    assert!(!stamp.is_empty() && !stamp.contains('\n'));
    assert_eq!(stamp.trim(), stamp);
    assert_eq!(bytes.len(), 19, "{stamp}");
    for (i, b) in bytes.iter().enumerate() {
        match i {
            4 | 7 => assert_eq!(*b, b'-'),
            10 => assert_eq!(*b, b' '),
            13 | 16 => assert_eq!(*b, b':'),
            _ => assert!(b.is_ascii_digit(), "{stamp}"),
        }
    }
}
