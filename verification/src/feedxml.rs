//! Extracting items from a feed document.
//!
//! Tokenizing the XML text is the work of the `xml` crate, behind one
//! trusted wrapper; everything after that — the accumulator state machine
//! that turns the token stream into items — is verified here.
//!
//! The state machine keeps a "current element name", updated on every start
//! tag. Text or CDATA content lands in the title, description or link field
//! of an in-progress item when the current element name matches; a later
//! occurrence of the same tag overwrites an earlier one. An end tag named
//! `item` emits the accumulator and starts a fresh one. Fields never seen
//! stay empty. Element names are matched by local name only, so namespace
//! prefixes are ignored. A malformed document silently truncates the token
//! stream: items before the error still come out, nothing after it does.

use vstd::prelude::*;
use crate::item::{Item, ItemView};
use crate::strutil::str_eq;

verus! {

/// Mathematical value of an [`Event`].
pub enum EventView {
    Start(Seq<char>),
    Text(Seq<char>),
    End(Seq<char>),
    Other,
}

/// One XML token, reduced to what the extraction state machine reads: a
/// start tag's local name, a run of text or CDATA content, an end tag's
/// local name, or anything else.
pub enum Event {
    Start(String),
    Text(String),
    End(String),
    Other,
}

impl View for Event {
    type V = EventView;

    open spec fn view(&self) -> EventView {
        match self {
            Event::Start(n) => EventView::Start(n@),
            Event::Text(t) => EventView::Text(t@),
            Event::End(n) => EventView::End(n@),
            Event::Other => EventView::Other,
        }
    }
}

/// The values of a sequence of events.
pub open spec fn events_view(evs: Seq<Event>) -> Seq<EventView> {
    evs.map(|i: int, e: Event| e@)
}

/// The values of a sequence of items.
pub open spec fn items_view(items: Seq<Item>) -> Seq<ItemView> {
    items.map(|i: int, it: Item| it@)
}

/// The token stream that the XML tokenizer produces for a document,
/// truncated at the first malformed construct. A function of the document
/// text alone.
pub uninterp spec fn events_of(body: Seq<char>) -> Seq<EventView>;

/// Relies on xml::reader::EventReader: yields the document's tokens in
/// order and, once it reports an error, yields nothing further. Start and
/// end tags carry the local name, with any namespace prefix stripped;
/// character and CDATA runs carry their text.
#[verifier::external_body]
fn tokenize(body: &str) -> (r: Vec<Event>)
    ensures
        events_view(r@) == events_of(body@),
{
    let mut out = Vec::new();
    for ev in xml::reader::EventReader::new(body.as_bytes()) {
        match ev {
            Ok(xml::reader::XmlEvent::StartElement { name, .. }) => out.push(Event::Start(name.local_name)),
            Ok(xml::reader::XmlEvent::Characters(t)) => out.push(Event::Text(t)),
            Ok(xml::reader::XmlEvent::CData(t)) => out.push(Event::Text(t)),
            Ok(xml::reader::XmlEvent::EndElement { name }) => out.push(Event::End(name.local_name)),
            Ok(_) => out.push(Event::Other),
            Err(_) => break,
        }
    }
    out
}

/// An empty accumulator: every field defaults to the empty string.
pub open spec fn empty_item() -> ItemView {
    ItemView { desc: Seq::empty(), link: Seq::empty(), title: Seq::empty() }
}

/// Text `t` seen while the current element is named `el`: it overwrites the
/// matching field of the accumulator, or none.
pub open spec fn update_field(acc: ItemView, el: Seq<char>, t: Seq<char>) -> ItemView {
    if el == "title"@ {
        ItemView { title: t, ..acc }
    } else if el == "description"@ {
        ItemView { desc: t, ..acc }
    } else if el == "link"@ {
        ItemView { link: t, ..acc }
    } else {
        acc
    }
}

/// The items that the rest of the token stream yields, given the current
/// element name and the in-progress accumulator.
pub open spec fn extract_from(evs: Seq<EventView>, el: Seq<char>, acc: ItemView) -> Seq<ItemView>
    decreases evs.len(),
{
    if evs.len() == 0 {
        Seq::empty()
    } else {
        let rest = evs.drop_first();
        match evs[0] {
            EventView::Start(name) => extract_from(rest, name, acc),
            EventView::Text(t) => extract_from(rest, el, update_field(acc, el, t)),
            EventView::End(name) => if name == "item"@ {
                seq![acc] + extract_from(rest, el, empty_item())
            } else {
                extract_from(rest, el, acc)
            },
            EventView::Other => extract_from(rest, el, acc),
        }
    }
}

/// The items of a whole token stream.
pub open spec fn extract_spec(evs: Seq<EventView>) -> Seq<ItemView> {
    extract_from(evs, Seq::empty(), empty_item())
}

/// The items of a feed document: its token stream, run through the
/// extraction state machine.
pub open spec fn parse_spec(body: Seq<char>) -> Seq<ItemView> {
    extract_spec(events_of(body))
}

/// Runs the extraction state machine over a token stream.
pub fn extract_items(evs: &Vec<Event>) -> (r: Vec<Item>)
    ensures
        items_view(r@) == extract_spec(events_view(evs@)),
{
    let ghost evsv = events_view(evs@);
    let mut out: Vec<Item> = Vec::new();
    let mut el = String::new();
    let mut acc = Item::new();
    let mut i: usize = 0;
    proof {
        assert(evsv.skip(0) =~= evsv);
        assert(acc@ =~= empty_item());
        assert(items_view(out@) =~= Seq::empty());
    }
    while i < evs.len()
        invariant
            i <= evs.len(),
            evsv == events_view(evs@),
            extract_spec(evsv) == items_view(out@) + extract_from(
                evsv.skip(i as int),
                el@,
                acc@,
            ),
        decreases evs.len() - i,
    {
        proof {
            assert(evsv[i as int] == evs@[i as int]@);
            assert(evsv.skip(i as int)[0] == evsv[i as int]);
            assert(evsv.skip(i as int).drop_first() =~= evsv.skip(i + 1 as int));
        }
        let ev = &evs[i];
        match ev {
            Event::Start(name) => {
                el = name.clone();
            },
            Event::Text(t) => {
                if str_eq(el.as_str(), "title") {
                    acc.title = t.clone();
                } else if str_eq(el.as_str(), "description") {
                    acc.desc = t.clone();
                } else if str_eq(el.as_str(), "link") {
                    acc.link = t.clone();
                }
            },
            Event::End(name) => {
                if str_eq(name.as_str(), "item") {
                    out.push(acc);
                    acc = Item::new();
                    proof {
                        assert(acc@ =~= empty_item());
                        assert(items_view(out@) =~= items_view(out@.drop_last()).push(
                            out@.last()@,
                        ));
                        assert(items_view(out@.drop_last()) + (seq![out@.last()@]
                            + extract_from(evsv.skip(i + 1 as int), el@, acc@)) =~= items_view(
                            out@,
                        ) + extract_from(evsv.skip(i + 1 as int), el@, acc@));
                    }
                }
            },
            Event::Other => {},
        }
        i = i + 1;
    }
    proof {
        assert(items_view(out@) + Seq::<ItemView>::empty() =~= items_view(out@));
    }
    out
}

/// Extracts the items of a feed document: tokenize, then run the state
/// machine. A malformed document yields the items completed before the
/// error and nothing more; no error is surfaced.
pub fn parse(body: &str) -> (r: Vec<Item>)
    ensures
        items_view(r@) == parse_spec(body@),
{
    let evs = tokenize(body);
    extract_items(&evs)
}

/// How many `item` end tags a token stream holds.
pub open spec fn count_item_ends(evs: Seq<EventView>) -> nat
    decreases evs.len(),
{
    if evs.len() == 0 {
        0
    } else {
        (match evs[0] {
            EventView::End(name) => if name == "item"@ {
                1nat
            } else {
                0nat
            },
            _ => 0nat,
        }) + count_item_ends(evs.drop_first())
    }
}

/// Extraction yields exactly one item per `item` end tag in the token
/// stream, whatever the starting state: items completed before a truncation
/// point all come out, and nothing else does.
pub proof fn lemma_one_item_per_end_tag(evs: Seq<EventView>, el: Seq<char>, acc: ItemView)
    ensures
        extract_from(evs, el, acc).len() == count_item_ends(evs),
    decreases evs.len(),
{
    if evs.len() == 0 {
    } else {
        let rest = evs.drop_first();
        match evs[0] {
            EventView::Start(name) => lemma_one_item_per_end_tag(rest, name, acc),
            EventView::Text(t) => lemma_one_item_per_end_tag(rest, el, update_field(acc, el, t)),
            EventView::End(name) => {
                if name == "item"@ {
                    lemma_one_item_per_end_tag(rest, el, empty_item());
                } else {
                    lemma_one_item_per_end_tag(rest, el, acc);
                }
            },
            EventView::Other => lemma_one_item_per_end_tag(rest, el, acc),
        }
    }
}

/// Within one item, a later text under the same tag overwrites an earlier
/// one completely: updating a field twice keeps only the second text.
pub proof fn lemma_later_text_overwrites(acc: ItemView, el: Seq<char>, t1: Seq<char>, t2: Seq<char>)
    ensures
        update_field(update_field(acc, el, t1), el, t2) == update_field(acc, el, t2),
{
}

} // verus!
