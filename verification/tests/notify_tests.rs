use rss2email::Item;
use rss2email::notify::{build_html, build_subject, escape};

#[test]
fn subject_is_tag_plus_title() {
    let item = Item {
        desc: "World".to_string(),
        link: "http://a.example/1".to_string(),
        title: "Hello".to_string(),
    };
    assert_eq!(build_subject(&item), "[rss2email] Hello");
}

#[test]
fn escape_rewrites_every_special_character() {
    assert_eq!(escape("&<>\"'"), "&amp;&lt;&gt;&quot;&#39;");
    assert_eq!(escape("plain text"), "plain text");
    assert_eq!(escape(""), "");
}

#[test]
fn html_body_embeds_the_escaped_fields() {
    let item = Item {
        desc: "World".to_string(),
        link: "http://a.example/1".to_string(),
        title: "Hello".to_string(),
    };
    assert_eq!(
        build_html(&item),
        "<div><h1><a href='http://a.example/1'>Hello</a></h1><p>World</p></div>"
    );
}

#[test]
fn html_body_escapes_hostile_fields() {
    let item = Item {
        desc: "a'b\"c".to_string(),
        link: "http://a.example/?x=1&y=2".to_string(),
        title: "T<i>".to_string(),
    };
    let expected =
        "<div><h1><a href='http://a.example/?x=1&amp;y=2'>T&lt;i&gt;</a></h1><p>a&#39;b&quot;c</p></div>";
    assert_eq!(build_html(&item), expected);
}
