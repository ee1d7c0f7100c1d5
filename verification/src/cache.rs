//! The durable mirror of the last known-good item listing.  The cache is
//! bound to one file path; loading tolerates a missing or corrupt file by
//! degrading to an empty list, and replacing the list yields the exact text
//! to write back, so the in-memory list is never behind what was last
//! requested.  File reading and writing happen outside this library: the
//! functions here take and return the file's contents as plain strings.
use vstd::prelude::*;
use crate::codec::{decode_items, encode_items, spec_decode_items, spec_enc_items};
use crate::item::{Item, ItemV};

verus! {

/// Spec-level model of a [`Cache`].
pub struct CacheV {
    pub path: Seq<char>,
    pub items: Seq<ItemV>,
}

/// The in-memory side of the cache: its file path and the current items.
#[derive(Debug)]
pub struct Cache {
    path: String,
    items: Vec<Item>,
}

impl View for Cache {
    type V = CacheV;

    closed spec fn view(&self) -> CacheV {
        CacheV { path: self.path@, items: self.items.deep_view() }
    }
}

/// What loading yields from a file's contents: the decoded items, or an
/// empty list when the file was unreadable or does not decode.
pub open spec fn spec_loaded_items(contents: Option<Seq<char>>) -> Seq<ItemV> {
    match contents {
        Some(s) => match spec_decode_items(s) {
            Some(items) => items,
            None => Seq::empty(),
        },
        None => Seq::empty(),
    }
}

impl Cache {
    /// Builds the cache for `path` from the file's contents, best-effort:
    /// `contents` is `None` when the file could not be read, and any text
    /// that does not decode yields an empty cache, never an error.
    pub fn try_load(path: String, contents: Option<String>) -> (c: Cache)
        ensures
            c@.path == path@,
            c@.items == spec_loaded_items(
                match contents {
                    Some(s) => Some(s@),
                    None => None,
                },
            ),
    {
        let items = match contents {
            Some(text) => match decode_items(text.as_str()) {
                Some(items) => items,
                None => Vec::new(),
            },
            None => Vec::new(),
        };
        let c = Cache { path, items };
        proof {
            if c@.items.len() == 0 {
                assert(c@.items =~= Seq::<ItemV>::empty());
            }
        }
        c
    }

    /// Replaces the in-memory list wholesale and returns the exact text to
    /// overwrite the backing file with.  A caller whose write fails must
    /// leave the old file intact and keep this cache as it is: the list
    /// stays ahead of the disk, never behind.
    pub fn replace(&mut self, items: Vec<Item>) -> (contents: String)
        ensures
            final(self)@.path == old(self)@.path,
            final(self)@.items == items.deep_view(),
            contents@ == spec_enc_items(items.deep_view()),
    {
        let contents = encode_items(&items);
        self.items = items;
        contents
    }

    /// The current item list, with no implicit refresh.
    pub fn items(&self) -> (r: &Vec<Item>)
        ensures
            r.deep_view() == self@.items,
    {
        &self.items
    }

    /// The file path this cache is bound to.
    pub fn path(&self) -> (r: &String)
        ensures
            r@ == self@.path,
    {
        &self.path
    }
}

/// Replacing and then loading the same contents round-trips: the text that
/// [`Cache::replace`] hands back decodes to exactly the item list that was
/// stored, so a [`Cache::try_load`] of an unchanged file yields it again.
pub proof fn lemma_replace_then_load(items: Seq<ItemV>)
    ensures
        spec_loaded_items(Some(spec_enc_items(items))) == items,
{
    crate::codec::lemma_decode_encode(items);
}

} // verus!
