//! Polls RSS/Atom feeds, detects previously unseen items by a stable content
//! hash, and prepares email notifications for the new ones. Feed
//! subscriptions and the set of already-seen item hashes live in a store.

pub mod feedxml;
pub mod hashing;
pub mod item;
pub mod notify;
pub mod poll;
pub mod store;
pub mod strutil;

pub use item::Item;
