use vstd::prelude::*;
use crate::header::{EntryHeader, ImagView};
use crate::storeid::{StoreId, StoreIdView};

verus! {

/// An entry of the store: where it lives, and its header.
#[derive(Debug)]
pub struct Entry {
    pub location: StoreId,
    pub header: EntryHeader,
}

/// What an entry stands for.
pub struct EntryView {
    pub location: StoreIdView,
    pub header: ImagView,
}

impl View for Entry {
    type V = EntryView;

    open spec fn view(&self) -> EntryView {
        EntryView { location: self.location@, header: self.header@ }
    }
}

impl Entry {
    /// A new entry at `location`, with the header of a new entry.
    pub fn new(location: StoreId) -> (r: Entry)
        ensures
            r@.location == location@,
            r@.header == EntryHeader::new_view(),
    {
        Entry { location, header: EntryHeader::new() }
    }

    /// An entry made of its parts.
    pub fn from_parts(location: StoreId, header: EntryHeader) -> (r: Entry)
        ensures
            r@ == (EntryView { location: location@, header: header@ }),
    {
        Entry { location, header }
    }

    /// Where the entry lives.
    pub fn get_location(&self) -> (r: &StoreId)
        ensures
            r@ == self@.location,
    {
        &self.location
    }

    /// The entry's header.
    pub fn get_header(&self) -> (r: &EntryHeader)
        ensures
            r@ == self@.header,
    {
        &self.header
    }

    /// A copy of this entry.
    pub fn duplicate(&self) -> (r: Entry)
        ensures
            r@ == self@,
    {
        Entry { location: self.location.duplicate(), header: self.header.duplicate() }
    }
}

} // verus!
