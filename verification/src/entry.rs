//! Entries: a header of structured values and free text, under an identifier.

use vstd::prelude::*;
use crate::header::EntryHeader;
use crate::storeid::StoreId;
use crate::value::ValueView;

verus! {

/// What an entry holds.
pub ghost struct EntryView {
    pub location: Seq<char>,
    pub header: ValueView,
    pub content: Seq<char>,
}

/// An entry of the store.
#[derive(Debug)]
pub struct Entry {
    location: StoreId,
    header: EntryHeader,
    content: String,
}

impl View for Entry {
    type V = EntryView;

    closed spec fn view(&self) -> EntryView {
        EntryView { location: self.location@, header: self.header@, content: self.content@ }
    }
}

impl Entry {
    /// The entry at `location` with an empty header and no text.
    pub fn new(location: StoreId) -> (e: Entry)
        ensures
            e@ == (EntryView {
                location: location@,
                header: ValueView::Table(Seq::empty()),
                content: Seq::empty(),
            }),
    {
        Entry { location, header: EntryHeader::new(), content: String::new() }
    }

    /// The entry at `location` with the given header and text.
    pub fn from_parts(location: StoreId, header: EntryHeader, content: String) -> (e: Entry)
        ensures
            e@ == (EntryView { location: location@, header: header@, content: content@ }),
    {
        Entry { location, header, content }
    }

    /// The identifier of this entry.
    pub fn get_location(&self) -> (id: &StoreId)
        ensures
            id@ == self@.location,
    {
        &self.location
    }

    /// The header of this entry.
    pub fn get_header(&self) -> (h: &EntryHeader)
        ensures
            h@ == self@.header,
    {
        &self.header
    }

    /// The header of this entry, to be changed in place.
    pub fn get_header_mut(&mut self) -> (h: &mut EntryHeader)
        ensures
            h@ == old(self)@.header,
            final(self)@ == (EntryView { header: final(h)@, ..old(self)@ }),
    {
        &mut self.header
    }

    /// The text of this entry.
    pub fn get_content(&self) -> (c: &String)
        ensures
            c@ == self@.content,
    {
        &self.content
    }

    /// The text of this entry, to be changed in place.
    pub fn get_content_mut(&mut self) -> (c: &mut String)
        ensures
            c@ == old(self)@.content,
            final(self)@ == (EntryView { content: final(c)@, ..old(self)@ }),
    {
        &mut self.content
    }
}

/// An entry that the store has handed out to one holder, who alone reads and
/// writes it until it goes back. There is no other way to come by one.
#[derive(Debug)]
pub struct FileLockEntry {
    entry: Entry,
    key: StoreId,
}

impl View for FileLockEntry {
    type V = EntryView;

    closed spec fn view(&self) -> EntryView {
        self.entry@
    }
}

impl FileLockEntry {
    /// The identifier under which the store handed the entry out.
    pub closed spec fn key(&self) -> Seq<char> {
        self.key@
    }

    /// The entry `entry`, handed out under `key`. Only the store hands
    /// entries out.
    pub(crate) fn new(entry: Entry, key: StoreId) -> (fle: FileLockEntry)
        ensures
            fle@ == entry@,
            fle.key() == key@,
    {
        FileLockEntry { entry, key }
    }

    /// The identifier under which the store handed the entry out.
    pub fn get_key(&self) -> (id: &StoreId)
        ensures
            id@ == self.key(),
    {
        &self.key
    }

    /// The entry.
    pub fn entry(&self) -> (e: &Entry)
        ensures
            e@ == self@,
    {
        &self.entry
    }

    /// The entry, to be changed in place.
    pub fn entry_mut(&mut self) -> (e: &mut Entry)
        ensures
            e@ == old(self)@,
            final(self)@ == final(e)@,
            final(self).key() == old(self).key(),
    {
        &mut self.entry
    }

    /// The entry and the identifier under which it was handed out.
    pub fn into_parts(self) -> (r: (Entry, StoreId))
        ensures
            r.0@ == self@,
            r.1@ == self.key(),
    {
        (self.entry, self.key)
    }
}

} // verus!
