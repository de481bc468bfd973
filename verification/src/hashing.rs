//! The dedup hash: a deterministic 64-bit content hash over the ordered
//! triple (description, link, title) of an item. The combining step is the
//! FNV-1a multiply-and-xor round; fields are separated by a sentinel value
//! that no Unicode scalar can take, so field boundaries cannot shift. No
//! normalization is applied: items differing only in whitespace hash apart.

use vstd::prelude::*;
use crate::item::{Item, ItemView};

verus! {

pub const FNV_OFFSET: u64 = 0xcbf2_9ce4_8422_2325;

pub const FNV_PRIME: u64 = 0x0000_0100_0000_01b3;

/// Separates the three fields inside the hash stream; strictly above the
/// largest Unicode scalar value, so it collides with no character.
pub const FIELD_SEP: u64 = 0x11_0000;

/// One FNV-1a round: fold a 64-bit value into the running hash.
pub open spec fn hash_step(h: u64, v: u64) -> u64 {
    vstd::wrapping::u64_specs::wrapping_mul(h ^ v, FNV_PRIME)
}

/// Fold every character of `s`, in order, into the running hash `h`.
pub open spec fn hash_chars(h: u64, s: Seq<char>) -> u64
    decreases s.len(),
{
    if s.len() == 0 {
        h
    } else {
        hash_chars(hash_step(h, s[0] as u64), s.drop_first())
    }
}

/// The dedup hash of an item: its description, link and title, in that
/// order, with a separator between fields.
pub open spec fn item_hash(i: ItemView) -> u64 {
    let h0 = hash_chars(FNV_OFFSET, i.desc);
    let h1 = hash_step(h0, FIELD_SEP);
    let h2 = hash_chars(h1, i.link);
    let h3 = hash_step(h2, FIELD_SEP);
    hash_chars(h3, i.title)
}

fn hash_step_exec(h: u64, v: u64) -> (r: u64)
    ensures
        r == hash_step(h, v),
{
    (h ^ v).wrapping_mul(FNV_PRIME)
}

fn hash_str(h0: u64, s: &str) -> (r: u64)
    ensures
        r == hash_chars(h0, s@),
{
    let len = s.unicode_len();
    let mut h = h0;
    let mut i: usize = 0;
    proof {
        assert(s@.skip(0) =~= s@);
    }
    while i < len
        invariant
            i <= len,
            len == s@.len(),
            hash_chars(h0, s@) == hash_chars(h, s@.skip(i as int)),
        decreases len - i,
    {
        proof {
            assert(s@.skip(i as int)[0] == s@[i as int]);
            assert(s@.skip(i as int).drop_first() =~= s@.skip(i + 1 as int));
        }
        h = hash_step_exec(h, s.get_char(i) as u64);
        i = i + 1;
    }
    h
}

impl Item {
    /// The dedup hash of this item.
    pub fn hash_of(&self) -> (r: u64)
        ensures
            r == item_hash(self@),
    {
        let mut h = hash_str(FNV_OFFSET, self.desc.as_str());
        h = hash_step_exec(h, FIELD_SEP);
        h = hash_str(h, self.link.as_str());
        h = hash_step_exec(h, FIELD_SEP);
        hash_str(h, self.title.as_str())
    }
}

/// The hash is a function of the field values alone: two items with
/// identical (title, link, description) triples hash identically.
pub proof fn lemma_hash_deterministic(a: ItemView, b: ItemView)
    requires
        a.title == b.title,
        a.link == b.link,
        a.desc == b.desc,
    ensures
        item_hash(a) == item_hash(b),
{
}

} // verus!
