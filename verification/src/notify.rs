//! Formatting the notification email for one item: a subject line and an
//! HTML body that embeds the item's link as an anchor, its title as the
//! anchor text and heading, and its description as a paragraph. Field
//! values are HTML-escaped before they are interpolated, so a hostile feed
//! cannot inject markup.

use vstd::prelude::*;
use vstd::string::StringExecFns;
use crate::item::{Item, ItemView};
use crate::strutil::push_char;

verus! {

/// What one character becomes inside HTML text or a quoted attribute.
pub open spec fn escaped_char(c: char) -> Seq<char> {
    if c == '&' {
        "&amp;"@
    } else if c == '<' {
        "&lt;"@
    } else if c == '>' {
        "&gt;"@
    } else if c == '"' {
        "&quot;"@
    } else if c == '\'' {
        "&#39;"@
    } else {
        seq![c]
    }
}

/// A string with every character HTML-escaped.
pub open spec fn escaped(s: Seq<char>) -> Seq<char>
    decreases s.len(),
{
    if s.len() == 0 {
        Seq::empty()
    } else {
        escaped_char(s[0]) + escaped(s.drop_first())
    }
}

/// The subject line for an item.
pub open spec fn subject_of(i: ItemView) -> Seq<char> {
    "[rss2email] "@ + i.title
}

/// The HTML body for an item, all three fields escaped.
pub open spec fn html_of(i: ItemView) -> Seq<char> {
    "<div><h1><a href='"@ + escaped(i.link) + "'>"@ + escaped(i.title) + "</a></h1><p>"@ + escaped(
        i.desc,
    ) + "</p></div>"@
}

/// HTML-escapes a string.
pub fn escape(s: &str) -> (r: String)
    ensures
        r@ == escaped(s@),
{
    let len = s.unicode_len();
    let mut r = String::new();
    let mut i: usize = 0;
    proof {
        assert(s@.skip(0) =~= s@);
        assert(r@ + escaped(s@) =~= escaped(s@));
    }
    while i < len
        invariant
            i <= len,
            len == s@.len(),
            escaped(s@) == r@ + escaped(s@.skip(i as int)),
        decreases len - i,
    {
        proof {
            assert(s@.skip(i as int)[0] == s@[i as int]);
            assert(s@.skip(i as int).drop_first() =~= s@.skip(i + 1 as int));
        }
        let c = s.get_char(i);
        if c == '&' {
            r.append("&amp;");
        } else if c == '<' {
            r.append("&lt;");
        } else if c == '>' {
            r.append("&gt;");
        } else if c == '"' {
            r.append("&quot;");
        } else if c == '\'' {
            r.append("&#39;");
        } else {
            let ghost prev = r@;
            push_char(&mut r, c);
            proof {
                assert(r@ =~= prev + seq![c]);
            }
        }
        proof {
            assert(escaped(s@) =~= r@ + escaped(s@.skip(i + 1 as int)));
        }
        i = i + 1;
    }
    proof {
        assert(r@ + escaped(s@.skip(len as int)) =~= r@);
    }
    r
}

/// Builds the subject line: the fixed tag, then the item's title verbatim.
pub fn build_subject(item: &Item) -> (r: String)
    ensures
        r@ == subject_of(item@),
{
    let mut r = String::from_str("[rss2email] ");
    r.append(item.title.as_str());
    r
}

/// Builds the HTML body with every field escaped.
pub fn build_html(item: &Item) -> (r: String)
    ensures
        r@ == html_of(item@),
{
    let mut r = String::from_str("<div><h1><a href='");
    let link = escape(item.link.as_str());
    r.append(link.as_str());
    r.append("'>");
    let title = escape(item.title.as_str());
    r.append(title.as_str());
    r.append("</a></h1><p>");
    let desc = escape(item.desc.as_str());
    r.append(desc.as_str());
    r.append("</p></div>");
    proof {
        assert(r@ =~= html_of(item@));
    }
    r
}

} // verus!
