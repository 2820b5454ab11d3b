use vstd::prelude::*;
use crate::error::StoreErrorKind;

verus! {

/// An element of an array in an entry's header: a string, or any other
/// value.
#[derive(Debug)]
pub enum ArrayItem {
    Str(String),
    Other,
}

/// A value in an entry's header, as far as links are concerned: a string,
/// an array, or any other value (number, boolean, date, table).
#[derive(Debug)]
pub enum HeaderValue {
    Str(String),
    Array(Vec<ArrayItem>),
    Other,
}

/// What an array element stands for.
pub enum ItemView {
    Str(Seq<char>),
    Other,
}

/// What a header value stands for.
pub enum ValueView {
    Str(Seq<char>),
    Array(Seq<ItemView>),
    Other,
}

impl View for ArrayItem {
    type V = ItemView;

    open spec fn view(&self) -> ItemView {
        match self {
            ArrayItem::Str(s) => ItemView::Str(s@),
            ArrayItem::Other => ItemView::Other,
        }
    }
}

impl View for HeaderValue {
    type V = ValueView;

    open spec fn view(&self) -> ValueView {
        match self {
            HeaderValue::Str(s) => ValueView::Str(s@),
            HeaderValue::Array(v) => ValueView::Array(v@.map_values(|x: ArrayItem| x@)),
            HeaderValue::Other => ValueView::Other,
        }
    }
}

/// Every element of the array is a string.
pub open spec fn all_str(items: Seq<ItemView>) -> bool {
    forall|i: int| 0 <= i < items.len() ==> #[trigger] items[i] is Str
}

/// The strings of an array whose elements are strings.
pub open spec fn item_names(items: Seq<ItemView>) -> Seq<Seq<char>> {
    items.map_values(|it: ItemView| it->Str_0)
}

/// The header's `imag.links` is an array of strings that holds the strings
/// of `names`, each once, in ascending order.
pub open spec fn holds_links(h: ImagView, names: Set<Seq<char>>) -> bool {
    &&& h matches ImagView::Table { links: Some(ValueView::Array(items)) }
    &&& all_str(h->Table_links->Some_0->Array_0)
    &&& crate::order::is_canonical(item_names(h->Table_links->Some_0->Array_0), names)
}

/// The view of an optional header value.
pub open spec fn opt_view(v: Option<HeaderValue>) -> Option<ValueView> {
    match v {
        Some(x) => Some(x@),
        None => None,
    }
}

impl ArrayItem {
    /// A copy of this element.
    pub fn duplicate(&self) -> (r: ArrayItem)
        ensures
            r@ == self@,
    {
        match self {
            ArrayItem::Str(s) => ArrayItem::Str(s.clone()),
            ArrayItem::Other => ArrayItem::Other,
        }
    }
}

impl HeaderValue {
    /// A copy of this value.
    pub fn duplicate(&self) -> (r: HeaderValue)
        ensures
            r@ == self@,
    {
        match self {
            HeaderValue::Str(s) => HeaderValue::Str(s.clone()),
            HeaderValue::Other => HeaderValue::Other,
            HeaderValue::Array(v) => {
                let mut out: Vec<ArrayItem> = Vec::new();
                let n = v.len();
                for i in 0..n
                    invariant
                        n == v.len(),
                        out.len() == i,
                        forall|j: int| 0 <= j < i ==> out@[j]@ == v@[j]@,
                {
                    out.push(v[i].duplicate());
                }
                assert(out@.map_values(|x: ArrayItem| x@) =~= v@.map_values(|x: ArrayItem| x@));
                HeaderValue::Array(out)
            },
        }
    }
}

/// The `imag` section of an entry's header: missing, present but not a
/// table, or a table whose `links` key holds a value or is absent.
#[derive(Debug)]
pub enum ImagSection {
    Missing,
    NotATable,
    Table { links: Option<HeaderValue> },
}

/// What the `imag` section stands for.
pub enum ImagView {
    Missing,
    NotATable,
    Table { links: Option<ValueView> },
}

impl View for ImagSection {
    type V = ImagView;

    open spec fn view(&self) -> ImagView {
        match self {
            ImagSection::Missing => ImagView::Missing,
            ImagSection::NotATable => ImagView::NotATable,
            ImagSection::Table { links } => ImagView::Table { links: opt_view(*links) },
        }
    }
}

/// The header of an entry, reduced to the section that the links live in.
#[derive(Debug)]
pub struct EntryHeader {
    pub imag: ImagSection,
}

impl View for EntryHeader {
    type V = ImagView;

    open spec fn view(&self) -> ImagView {
        self.imag@
    }
}

/// What reading `imag.links` gives: an error where the path runs through a
/// value that is not a table, nothing where a key on the path is missing,
/// else the value.
pub open spec fn spec_read_links(h: ImagView) -> Result<Option<ValueView>, StoreErrorKind> {
    match h {
        ImagView::Missing => Ok(None),
        ImagView::NotATable => Err(StoreErrorKind::HeaderPathTypeFailure),
        ImagView::Table { links } => Ok(links),
    }
}

/// What writing `v` to `imag.links` gives: an error where `imag` is missing
/// or is not a table, else the value that was there before.
pub open spec fn spec_set_links_result(h: ImagView) -> Result<Option<ValueView>, StoreErrorKind> {
    match h {
        ImagView::Missing => Err(StoreErrorKind::HeaderKeyNotFound),
        ImagView::NotATable => Err(StoreErrorKind::HeaderPathTypeFailure),
        ImagView::Table { links } => Ok(links),
    }
}

/// The section after writing `v` to `imag.links`: changed only where `imag`
/// is a table.
pub open spec fn spec_set_links(h: ImagView, v: ValueView) -> ImagView {
    match h {
        ImagView::Table { .. } => ImagView::Table { links: Some(v) },
        _ => h,
    }
}

/// The view of a read or write result.
pub open spec fn result_view(r: Result<Option<HeaderValue>, StoreErrorKind>) -> Result<Option<ValueView>, StoreErrorKind> {
    match r {
        Ok(v) => Ok(opt_view(v)),
        Err(e) => Err(e),
    }
}

impl EntryHeader {
    /// The view of the header of a new entry.
    pub open spec fn new_view() -> ImagView {
        ImagView::Table { links: Some(ValueView::Array(Seq::empty())) }
    }

    /// The header of a new entry: an `imag` table whose links are an empty
    /// array.
    pub fn new() -> (r: EntryHeader)
        ensures
            r@ == EntryHeader::new_view(),
    {
        let r = EntryHeader { imag: ImagSection::Table { links: Some(HeaderValue::Array(Vec::new())) } };
        assert(r@->Table_links->Some_0->Array_0 =~= Seq::empty());
        r
    }

    /// A copy of this header.
    pub fn duplicate(&self) -> (r: EntryHeader)
        ensures
            r@ == self@,
    {
        let imag = match &self.imag {
            ImagSection::Missing => ImagSection::Missing,
            ImagSection::NotATable => ImagSection::NotATable,
            ImagSection::Table { links } => ImagSection::Table {
                links: match links {
                    Some(v) => Some(v.duplicate()),
                    None => None,
                },
            },
        };
        EntryHeader { imag }
    }

    /// Reads the value at `imag.links`.
    pub fn read_links(&self) -> (r: Result<Option<HeaderValue>, StoreErrorKind>)
        ensures
            result_view(r) == spec_read_links(self@),
    {
        match &self.imag {
            ImagSection::Missing => Ok(None),
            ImagSection::NotATable => Err(StoreErrorKind::HeaderPathTypeFailure),
            ImagSection::Table { links } => match links {
                Some(v) => Ok(Some(v.duplicate())),
                None => Ok(None),
            },
        }
    }

    /// Writes `v` to `imag.links` and gives back what was there.
    pub fn set_links(&mut self, v: HeaderValue) -> (r: Result<Option<HeaderValue>, StoreErrorKind>)
        ensures
            result_view(r) == spec_set_links_result(old(self)@),
            final(self)@ == spec_set_links(old(self)@, v@),
            old(self)@ is Table ==> result_view(r) == spec_read_links(old(self)@),
            old(self)@ is Table ==> final(self)@ == (ImagView::Table { links: Some(v@) }),
    {
        match &mut self.imag {
            ImagSection::Missing => Err(StoreErrorKind::HeaderKeyNotFound),
            ImagSection::NotATable => Err(StoreErrorKind::HeaderPathTypeFailure),
            ImagSection::Table { links } => {
                let mut prev = Some(v);
                std::mem::swap(links, &mut prev);
                Ok(prev)
            },
        }
    }
}

} // verus!
