use vstd::prelude::*;
use crate::entry::{Entry, EntryView};
use crate::error::{LinkError, LinkErrorKind, StoreErrorKind};
use crate::header::{
    ArrayItem, EntryHeader, HeaderValue, ImagView, ItemView, ValueView, all_str, holds_links,
    result_view, spec_read_links, spec_set_links_result,
};
use crate::iter::{IntoValues, LinkIter, not_link};
use crate::storeid::{StoreId, StoreIdView, ids_of, is_absolute, views};

verus! {

/// A link is the id of the entry it points to.
pub type Link = StoreId;

/// What the links in a header are, read from what reading `imag.links`
/// gave: a failed read is an error of the header; nothing there means no
/// links; an array of strings that are all relative paths gives one link,
/// bound to no store, per string, in order; any other value, or an array
/// with a value that is not a string, is a link of the wrong type; an
/// absolute path is not a store id.
pub open spec fn spec_links_of(r: Result<Option<ValueView>, StoreErrorKind>) -> Result<Seq<StoreIdView>, LinkError> {
    match r {
        Err(e) => Err(LinkError::spec_from_store(LinkErrorKind::EntryHeaderReadError, e)),
        Ok(None) => Ok(Seq::empty()),
        Ok(Some(ValueView::Array(items))) => {
            if !all_str(items) {
                Err(LinkError::spec_new(LinkErrorKind::ExistingLinkTypeWrong))
            } else if exists|i: int| 0 <= i < items.len() && is_absolute(#[trigger] items[i]->Str_0) {
                Err(LinkError::spec_from_store(LinkErrorKind::StoreIdError, StoreErrorKind::StoreIdLocalPartAbsolute))
            } else {
                Ok(items.map_values(|it: ItemView| StoreIdView { base: None, id: it->Str_0 }))
            }
        },
        Ok(Some(_)) => Err(LinkError::spec_new(LinkErrorKind::ExistingLinkTypeWrong)),
    }
}

/// The links stored in an entry's header.
pub open spec fn spec_links(h: ImagView) -> Result<Seq<StoreIdView>, LinkError> {
    spec_links_of(spec_read_links(h))
}

/// The view of a result that carries links.
pub open spec fn iter_result_view(r: Result<LinkIter, LinkError>) -> Result<Seq<StoreIdView>, LinkError> {
    match r {
        Ok(it) => Ok(it@),
        Err(e) => Err(e),
    }
}

/// Turns what reading or writing `imag.links` gave into the links it holds.
pub fn process_rw_result(links: Result<Option<HeaderValue>, StoreErrorKind>) -> (r: Result<LinkIter, LinkError>)
    ensures
        iter_result_view(r) == spec_links_of(result_view(links)),
{
    let ghost input = result_view(links);
    let arr = match links {
        Err(e) => {
            return Err(LinkError::from_store(LinkErrorKind::EntryHeaderReadError, e));
        },
        Ok(None) => {
            let r = LinkIter::new(Vec::new());
            assert(r@ =~= Seq::empty());
            return Ok(r);
        },
        Ok(Some(HeaderValue::Array(l))) => l,
        Ok(Some(_)) => {
            return Err(LinkError::new(LinkErrorKind::ExistingLinkTypeWrong));
        },
    };
    let ghost items = arr@.map_values(|it: ArrayItem| it@);
    assert(input == Ok::<Option<ValueView>, StoreErrorKind>(Some(ValueView::Array(items))));
    let n = arr.len();
    for i in 0..n
        invariant
            n == arr.len(),
            items == arr@.map_values(|it: ArrayItem| it@),
            input == Ok::<Option<ValueView>, StoreErrorKind>(Some(ValueView::Array(items))),
            input == result_view(links),
            forall|j: int| 0 <= j < i ==> #[trigger] items[j] is Str,
    {
        if let ArrayItem::Other = &arr[i] {
            assert(!(items[i as int] is Str));
            assert(!all_str(items));
            assert(spec_links_of(input) == Err::<Seq<StoreIdView>, LinkError>(LinkError::spec_new(LinkErrorKind::ExistingLinkTypeWrong)));
            return Err(LinkError::new(LinkErrorKind::ExistingLinkTypeWrong));
        }
    }
    let mut ids: Vec<StoreId> = Vec::new();
    for i in 0..n
        invariant
            n == arr.len(),
            items == arr@.map_values(|it: ArrayItem| it@),
            input == Ok::<Option<ValueView>, StoreErrorKind>(Some(ValueView::Array(items))),
            input == result_view(links),
            all_str(items),
            ids.len() == i,
            forall|j: int| 0 <= j < i ==> !is_absolute(#[trigger] items[j]->Str_0),
            forall|j: int| 0 <= j < i ==> #[trigger] ids@[j]@ == (StoreIdView { base: None, id: items[j]->Str_0 }),
    {
        match &arr[i] {
            ArrayItem::Str(s) => match StoreId::new_baseless(s.clone()) {
                Ok(id) => {
                    ids.push(id);
                },
                Err(e) => {
                    assert(is_absolute(items[i as int]->Str_0));
                    assert(e == StoreErrorKind::StoreIdLocalPartAbsolute);
                    assert(spec_links_of(input) == Err::<Seq<StoreIdView>, LinkError>(LinkError::spec_from_store(LinkErrorKind::StoreIdError, StoreErrorKind::StoreIdLocalPartAbsolute)));
                    return Err(LinkError::from_store(LinkErrorKind::StoreIdError, e));
                },
            },
            ArrayItem::Other => {
                assert(items[i as int] is Str);
                return Err(LinkError::new(LinkErrorKind::ExistingLinkTypeWrong));
            },
        }
    }
    let r = LinkIter::new(ids);
    proof {
        assert(views(ids@) =~= items.map_values(|it: ItemView| StoreIdView { base: None, id: it->Str_0 }));
    }
    Ok(r)
}

/// What writing links to a header answers: where `imag` is missing or not a
/// table, an error of the header; else what the links that were there
/// before read as, an error if they do not read as links.
pub open spec fn spec_rewrite_result(h: ImagView) -> Result<(), LinkError> {
    match spec_set_links_result(h) {
        Err(e) => Err(LinkError::spec_from_store(LinkErrorKind::EntryHeaderReadError, e)),
        Ok(prev) => match spec_links_of(Ok(prev)) {
            Ok(_) => Ok(()),
            Err(e) => Err(e),
        },
    }
}

/// `new_h` is `old_h` after writing the links `names`: where `imag` is a
/// table its links are then those names, each once, in ascending order;
/// elsewhere nothing changes.
pub open spec fn rewritten(old_h: ImagView, new_h: ImagView, names: Set<Seq<char>>) -> bool {
    match old_h {
        ImagView::Table { .. } => holds_links(new_h, names),
        _ => new_h == old_h,
    }
}

/// What reading an entry's links and writing them back changed answers:
/// the read's error, else the write's answer.
pub open spec fn spec_relink_result(h: ImagView) -> Result<(), LinkError> {
    match spec_links(h) {
        Err(e) => Err(e),
        Ok(_) => spec_rewrite_result(h),
    }
}

/// `new_t` is `old_t` after adding a link to `id` to its links.
pub open spec fn link_added(old_t: EntryView, new_t: EntryView, id: Seq<char>) -> bool {
    &&& new_t.location == old_t.location
    &&& match spec_links(old_t.header) {
        Err(_) => new_t.header == old_t.header,
        Ok(ls) => rewritten(old_t.header, new_t.header, ids_of(ls).to_set().insert(id)),
    }
}

/// The links of `ls` but those to `id`, an id bound to no store.
pub open spec fn without_id(ls: Seq<StoreIdView>, id: Seq<char>) -> Seq<StoreIdView> {
    ls.filter(not_link(StoreIdView { base: None, id }))
}

/// `new_t` is `old_t` after taking the links to `id` out of its links.
pub open spec fn link_removed(old_t: EntryView, new_t: EntryView, id: Seq<char>) -> bool {
    &&& new_t.location == old_t.location
    &&& match spec_links(old_t.header) {
        Err(_) => new_t.header == old_t.header,
        Ok(ls) => rewritten(old_t.header, new_t.header, ids_of(without_id(ls, id)).to_set()),
    }
}

/// What linking `s0` to `l0` does: `l0` gets a link back to `s0`; if that
/// fails, the error is the answer and `s0` stays as it was; else `s0` gets a
/// link to `l0`, and the answer is that of this second step.
pub open spec fn add_post(s0: EntryView, l0: EntryView, s1: EntryView, l1: EntryView, r: Result<(), LinkError>) -> bool {
    &&& link_added(l0, l1, s0.location.id)
    &&& match spec_relink_result(l0.header) {
        Err(e) => r == Err::<(), LinkError>(e) && s1 == s0,
        Ok(_) => r == spec_relink_result(s0.header) && link_added(s0, s1, l0.location.id),
    }
}

/// What unlinking `s0` from `l0` does: the links of `l0` to `s0` go; if that
/// fails, the error is the answer and `s0` stays as it was; else the links
/// of `s0` to `l0` go, and the answer is that of this second step.
pub open spec fn remove_post(s0: EntryView, l0: EntryView, s1: EntryView, l1: EntryView, r: Result<(), LinkError>) -> bool {
    &&& link_removed(l0, l1, s0.location.id)
    &&& match spec_relink_result(l0.header) {
        Err(e) => r == Err::<(), LinkError>(e) && s1 == s0,
        Ok(_) => r == spec_relink_result(s0.header) && link_removed(s0, s1, l0.location.id),
    }
}

/// The views of a sequence of entries.
pub open spec fn entry_views(v: Seq<Entry>) -> Seq<EntryView> {
    v.map_values(|e: Entry| e@)
}

/// Where each of a sequence of entries lives.
pub open spec fn locations(v: Seq<EntryView>) -> Seq<StoreIdView> {
    v.map_values(|e: EntryView| e.location)
}

/// Each entry of `ls` before index `k` takes a link back without error.
pub open spec fn relinks_ok(ls: Seq<EntryView>, k: int) -> bool {
    forall|j: int| 0 <= j < k ==> #[trigger] spec_relink_result(ls[j].header) is Ok
}

/// What setting the links of `s0` to the entries `ls0` does: each entry in
/// turn gets a link back to `s0`. Where one fails, its error is the answer,
/// the entries after it and `s0` stay as they were. Else the links of `s0`
/// become those entries, and the answer is what the links that were there
/// before read as.
pub open spec fn set_post(
    s0: EntryView,
    ls0: Seq<EntryView>,
    s1: EntryView,
    ls1: Seq<EntryView>,
    r: Result<Seq<StoreIdView>, LinkError>,
) -> bool {
    &&& ls1.len() == ls0.len()
    &&& if relinks_ok(ls0, ls0.len() as int) {
        &&& forall|j: int| 0 <= j < ls0.len() ==> link_added(ls0[j], #[trigger] ls1[j], s0.location.id)
        &&& s1.location == s0.location
        &&& rewritten(s0.header, s1.header, ids_of(locations(ls0)).to_set())
        &&& r == match spec_set_links_result(s0.header) {
            Err(e) => Err(LinkError::spec_from_store(LinkErrorKind::EntryHeaderReadError, e)),
            Ok(prev) => spec_links_of(Ok(prev)),
        }
    } else {
        exists|k: int| {
            &&& 0 <= k < ls0.len()
            &&& relinks_ok(ls0, k)
            &&& #[trigger] spec_relink_result(ls0[k].header) is Err
            &&& r == Err::<Seq<StoreIdView>, LinkError>(spec_relink_result(ls0[k].header)->Err_0)
            &&& s1 == s0
            &&& forall|j: int| 0 <= j <= k ==> link_added(ls0[j], #[trigger] ls1[j], s0.location.id)
            &&& forall|j: int| k < j < ls0.len() ==> #[trigger] ls1[j] == ls0[j]
        }
    }
}

/// Writes `links` to the header as the entry's links: their local paths,
/// each once, in ascending order. Answers with what the links that were
/// there before read as.
pub fn rewrite_links(header: &mut EntryHeader, links: LinkIter) -> (r: Result<(), LinkError>)
    ensures
        r == spec_rewrite_result(old(header)@),
        rewritten(old(header)@, final(header)@, ids_of(links@).to_set()),
{
    let links = links.into_values();
    let process = header.set_links(HeaderValue::Array(links));
    match process_rw_result(process) {
        Ok(_) => Ok(()),
        Err(e) => Err(e),
    }
}

/// When linking A to B, B links back to A: adds a link to `from` to the
/// links of `target`.
pub fn add_foreign_link(target: &mut Entry, from: StoreId) -> (r: Result<(), LinkError>)
    ensures
        r == spec_relink_result(old(target)@.header),
        link_added(old(target)@, final(target)@, from@.id),
{
    match target.get_internal_links() {
        Err(e) => Err(e),
        Ok(links) => {
            let ghost ls = links@;
            let mut v: Vec<StoreId> = Vec::new();
            v.push(from);
            let links = links.chain(LinkIter::new(v));
            proof {
                assert(links@ =~= ls.push(from@));
                assert(ids_of(links@) =~= ids_of(ls).push(from@.id));
                ids_of(ls).lemma_push_to_set_commute(from@.id);
            }
            rewrite_links(&mut target.header, links)
        },
    }
}

/// The links between entries, kept in each entry's header.
pub trait InternalLinker {
    /// The links of this entry.
    fn get_internal_links(&self) -> Result<LinkIter, LinkError>;

    /// Links this entry to each of `links`, in turn, and makes them its
    /// links; answers with the links it had before.
    fn set_internal_links(&mut self, links: &mut Vec<Entry>) -> Result<LinkIter, LinkError>;

    /// Links this entry and `link` to each other.
    fn add_internal_link(&mut self, link: &mut Entry) -> Result<(), LinkError>;

    /// Removes the links between this entry and `link`.
    fn remove_internal_link(&mut self, link: &mut Entry) -> Result<(), LinkError>;
}

impl InternalLinker for Entry {
    fn get_internal_links(&self) -> (r: Result<LinkIter, LinkError>)
        ensures
            iter_result_view(r) == spec_links(self@.header),
    {
        process_rw_result(self.header.read_links())
    }

    fn set_internal_links(&mut self, links: &mut Vec<Entry>) -> (r: Result<LinkIter, LinkError>)
        ensures
            set_post(old(self)@, entry_views(old(links)@), final(self)@, entry_views(final(links)@), iter_result_view(r)),
    {
        let ghost ls0 = entry_views(links@);
        let self_location = self.location.duplicate();
        let mut new_links: Vec<StoreId> = Vec::new();
        let n = links.len();
        for i in 0..n
            invariant
                n == links.len(),
                ls0.len() == n,
                self@ == old(self)@,
                self_location@ == self@.location,
                ls0 == entry_views(old(links)@),
                relinks_ok(ls0, i as int),
                forall|j: int| 0 <= j < i ==> link_added(ls0[j], #[trigger] links@[j]@, self@.location.id),
                forall|j: int| i <= j < n ==> #[trigger] links@[j]@ == ls0[j],
                views(new_links@) == locations(ls0.take(i as int)),
        {
            let mut e = links.remove(i);
            let res = add_foreign_link(&mut e, self_location.duplicate());
            let loc = e.location.duplicate();
            links.insert(i, e);
            match res {
                Err(err) => {
                    proof {
                        assert(spec_relink_result(ls0[i as int].header) is Err);
                        assert(!relinks_ok(ls0, n as int));
                        assert forall|j: int| 0 <= j <= i implies link_added(ls0[j], #[trigger] entry_views(links@)[j], self@.location.id) by {
                        }
                        assert(entry_views(links@).len() == ls0.len());
                    }
                    return Err(err);
                },
                Ok(()) => {},
            }
            new_links.push(loc);
            proof {
                assert(locations(ls0.take(i + 1)) =~= locations(ls0.take(i as int)).push(ls0[i as int].location));
                assert(views(new_links@) =~= locations(ls0.take(i + 1)));
            }
        }
        proof {
            assert(ls0.take(n as int) =~= ls0);
            assert(entry_views(links@).len() == ls0.len());
        }
        let values = LinkIter::new(new_links).into_values();
        process_rw_result(self.header.set_links(HeaderValue::Array(values)))
    }

    fn add_internal_link(&mut self, link: &mut Entry) -> (r: Result<(), LinkError>)
        ensures
            add_post(old(self)@, old(link)@, final(self)@, final(link)@, r),
    {
        let new_link = link.location.duplicate();
        match add_foreign_link(link, self.location.duplicate()) {
            Err(e) => Err(e),
            Ok(()) => add_foreign_link(self, new_link),
        }
    }

    fn remove_internal_link(&mut self, link: &mut Entry) -> (r: Result<(), LinkError>)
        ensures
            remove_post(old(self)@, old(link)@, final(self)@, final(link)@, r),
    {
        let own_loc = self.location.duplicate().without_base();
        let other_loc = link.location.duplicate().without_base();
        let first = match link.get_internal_links() {
            Err(e) => Err(e),
            Ok(links) => rewrite_links(&mut link.header, links.filter_out(&own_loc)),
        };
        match first {
            Err(e) => Err(e),
            Ok(()) => match self.get_internal_links() {
                Err(e) => Err(e),
                Ok(links) => rewrite_links(&mut self.header, links.filter_out(&other_loc)),
            },
        }
    }
}

} // verus!
