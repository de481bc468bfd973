//! One entry extracted from a feed document: a title, a link and a
//! description, each defaulting to the empty string when the document does
//! not provide it.

use vstd::prelude::*;

verus! {

/// Mathematical value of an [`Item`]: the three fields as character
/// sequences.
pub struct ItemView {
    pub desc: Seq<char>,
    pub link: Seq<char>,
    pub title: Seq<char>,
}

/// One feed entry. Transient: it exists only while a single feed document is
/// processed.
pub struct Item {
    pub desc: String,
    pub link: String,
    pub title: String,
}

impl View for Item {
    type V = ItemView;

    open spec fn view(&self) -> ItemView {
        ItemView { desc: self.desc@, link: self.link@, title: self.title@ }
    }
}

impl Item {
    /// A fresh accumulator: every field is the empty string.
    pub fn new() -> (r: Item)
        ensures
            r@.desc == Seq::<char>::empty(),
            r@.link == Seq::<char>::empty(),
            r@.title == Seq::<char>::empty(),
    {
        Item { desc: String::new(), link: String::new(), title: String::new() }
    }
}

} // verus!
