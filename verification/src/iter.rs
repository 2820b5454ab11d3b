use vstd::prelude::*;
use crate::entry::{Entry, EntryView};
use crate::error::{LinkError, LinkErrorKind};
use crate::header::{ArrayItem, ItemView, all_str, item_names};
use crate::internal::{InternalLinker, spec_links};
use crate::error::StoreErrorKind;
use crate::store::{Store, StoreView, fault_of, get_view, index_of_entry, spec_get};
use crate::order::{is_canonical, sorted_unique, strs};
use crate::internal::Link;
use crate::storeid::{StoreId, StoreIdView, views, ids_of, is_absolute};

verus! {

/// The links of an entry, one after the other.
#[derive(Debug)]
pub struct LinkIter {
    links: Vec<StoreId>,
    pos: usize,
}

impl View for LinkIter {
    type V = Seq<StoreIdView>;

    /// The links that are still to come.
    closed spec fn view(&self) -> Seq<StoreIdView> {
        views(self.links@.subrange(self.pos as int, self.links@.len() as int))
    }
}

impl LinkIter {
    #[verifier::type_invariant]
    closed spec fn inv(&self) -> bool {
        self.pos <= self.links@.len()
    }

    /// The links of `v`, in its order.
    pub fn new(v: Vec<StoreId>) -> (r: LinkIter)
        ensures
            r@ == views(v@),
    {
        let r = LinkIter { links: v, pos: 0 };
        assert(r.links@.subrange(0, r.links@.len() as int) =~= r.links@);
        r
    }

    /// The next link, if any is left.
    pub fn next(&mut self) -> (r: Option<StoreId>)
        ensures
            old(self)@.len() == 0 ==> r is None && final(self)@ == old(self)@,
            old(self)@.len() > 0 ==> (r matches Some(l) && l@ == old(self)@[0]
                && final(self)@ == old(self)@.drop_first()),
    {
        proof {
            use_type_invariant(&*self);
        }
        if self.pos < self.links.len() {
            let l = self.links[self.pos].duplicate();
            self.pos = self.pos + 1;
            proof {
                assert(final(self)@ =~= old(self)@.drop_first());
            }
            Some(l)
        } else {
            None
        }
    }

    /// The links that are left, gathered in a vector.
    pub fn into_vec(self) -> (r: Vec<StoreId>)
        ensures
            views(r@) == self@,
    {
        proof {
            use_type_invariant(&self);
        }
        let mut out: Vec<StoreId> = Vec::new();
        let mut i = self.pos;
        while i < self.links.len()
            invariant
                self.pos <= i <= self.links@.len(),
                out@.len() == i - self.pos,
                forall|j: int| 0 <= j < out@.len() ==> #[trigger] out@[j]@ == self.links@[self.pos + j]@,
            decreases self.links@.len() - i,
        {
            out.push(self.links[i].duplicate());
            i = i + 1;
        }
        assert(views(out@) =~= views(self.links@.subrange(self.pos as int, self.links@.len() as int)));
        out
    }

    /// How many links are left.
    pub fn count(self) -> (r: usize)
        ensures
            r == self@.len(),
    {
        proof {
            use_type_invariant(&self);
        }
        self.links.len() - self.pos
    }

    /// The links that are left, except those equal to `other`.
    pub fn filter_out(self, other: &StoreId) -> (r: LinkIter)
        ensures
            r@ == self@.filter(not_link(other@)),
    {
        let v = self.into_vec();
        let ghost vv = views(v@);
        let mut out: Vec<StoreId> = Vec::new();
        let n = v.len();
        for i in 0..n
            invariant
                n == v.len(),
                vv == views(v@),
                views(out@) == vv.take(i as int).filter(not_link(other@)),
        {
            let keep = !v[i].same_as(other);
            let ghost before = views(out@);
            if keep {
                out.push(v[i].duplicate());
                proof {
                    assert(views(out@) =~= before.push(vv[i as int]));
                }
            }
            proof {
                assert(vv.take(i + 1) =~= vv.take(i as int).push(vv[i as int]));
                vv.take(i as int).lemma_filter_push(vv[i as int], not_link(other@));
            }
        }
        proof {
            assert(vv.take(n as int) =~= vv);
        }
        LinkIter::new(out)
    }

    /// The links of this iterator, then those of `other`.
    pub fn chain(self, other: LinkIter) -> (r: LinkIter)
        ensures
            r@ == self@ + other@,
    {
        let mut a = self.into_vec();
        let mut b = other.into_vec();
        let ghost va = a@;
        let ghost vb = b@;
        a.append(&mut b);
        proof {
            assert(views(a@) =~= views(va) + views(vb));
        }
        LinkIter::new(a)
    }
}

/// The predicate that holds of every link but `other`.
pub open spec fn not_link(other: StoreIdView) -> spec_fn(StoreIdView) -> bool {
    |l: StoreIdView| l != other
}

/// Turns links into the values that the header stores for them.
pub trait IntoValues {
    fn into_values(self) -> Vec<ArrayItem>;
}

impl IntoValues for LinkIter {
    /// The local paths of the links, each once, in ascending order, as
    /// strings of an array.
    fn into_values(self) -> (r: Vec<ArrayItem>)
        ensures
            all_str(r@.map_values(|it: ArrayItem| it@)),
            is_canonical(item_names(r@.map_values(|it: ArrayItem| it@)), ids_of(self@).to_set()),
            forall|x: Seq<char>| ids_of(self@).to_set().contains(x) ==> !is_absolute(x),
    {
        let links = self.into_vec();
        let ghost lv = views(links@);
        let mut names: Vec<String> = Vec::new();
        let n = links.len();
        for i in 0..n
            invariant
                n == links.len(),
                lv == views(links@),
                names.len() == i,
                forall|j: int| 0 <= j < i ==> #[trigger] names@[j]@ == lv[j].id,
                forall|j: int| 0 <= j < i ==> !is_absolute(#[trigger] lv[j].id),
        {
            let s = links[i].duplicate().without_base();
            // The local path of a store id is relative.
            let _relative: &String = s.local();
            let name = s.to_str();
            names.push(name);
        }
        proof {
            assert(strs(names@) =~= ids_of(lv));
        }
        let sorted = sorted_unique(names);
        let mut out: Vec<ArrayItem> = Vec::new();
        let m = sorted.len();
        for i in 0..m
            invariant
                m == sorted.len(),
                out.len() == i,
                forall|j: int| 0 <= j < i ==> #[trigger] out@[j]@ == ItemView::Str(sorted@[j]@),
        {
            out.push(ArrayItem::Str(sorted[i].clone()));
        }
        proof {
            let ov = out@.map_values(|it: ArrayItem| it@);
            assert(item_names(ov) =~= strs(sorted@));
            assert forall|x: Seq<char>| ids_of(lv).to_set().contains(x) implies !is_absolute(x) by {
                let j = choose|j: int| 0 <= j < ids_of(lv).len() && ids_of(lv)[j] == x;
                assert(!is_absolute(lv[j].id));
            }
        }
        out
    }
}

impl LinkIter {
    /// An iterator that gets each linked entry from `store` in turn.
    pub fn into_getter(self, store: &Store) -> (r: GetIter<'_>)
        ensures
            r.links_left() == self@,
            r.store_view() == store@,
    {
        GetIter { links: self, store }
    }
}

/// The view of what the iterators over entries hand out.
pub open spec fn item_view(r: Option<Result<Entry, LinkError>>) -> Option<Result<EntryView, LinkError>> {
    match r {
        None => None,
        Some(Ok(e)) => Some(Ok(e@)),
        Some(Err(e)) => Some(Err(e)),
    }
}

/// What the store's answer to reading a linked entry becomes: a failed
/// read is a read error of the store, caused by the store's error; no entry
/// ends the iteration; an entry is handed out.
pub open spec fn spec_read_item(r: Result<Option<EntryView>, StoreErrorKind>) -> Option<Result<EntryView, LinkError>> {
    match r {
        Err(e) => Some(Err(LinkError::spec_from_store(LinkErrorKind::StoreReadError, e))),
        Ok(None) => None,
        Ok(Some(e)) => Some(Ok(e)),
    }
}

/// Turns the store's answer to reading a linked entry into what the
/// iterators hand out.
pub fn read_item(r: Result<Option<Entry>, StoreErrorKind>) -> (item: Option<Result<Entry, LinkError>>)
    ensures
        item_view(item) == spec_read_item(get_view(r)),
{
    match r {
        Ok(None) => None,
        Ok(Some(x)) => Some(Ok(x)),
        Err(e) => Some(Err(LinkError::from_store(LinkErrorKind::StoreReadError, e))),
    }
}

/// What getting the next entry for the links `ids` from `store` hands out,
/// and the links left after it: nothing once the links are used up, else
/// what reading the next linked entry becomes.
pub open spec fn spec_get_next(store: StoreView, ids: Seq<StoreIdView>) -> (Option<Result<EntryView, LinkError>>, Seq<StoreIdView>) {
    if ids.len() == 0 {
        (None, ids)
    } else {
        (spec_read_item(spec_get(store, ids[0].id)), ids.drop_first())
    }
}

/// An iterator that gets the linked entries from the store while it is
/// consumed.
pub struct GetIter<'a> {
    links: LinkIter,
    store: &'a Store,
}

impl<'a> GetIter<'a> {
    /// The links that are still to come.
    pub closed spec fn links_left(&self) -> Seq<StoreIdView> {
        self.links@
    }

    /// The store the entries come from.
    pub closed spec fn store_view(&self) -> StoreView {
        self.store@
    }

    /// Gets each entry of `i` from `store` in turn.
    pub fn new(i: LinkIter, store: &'a Store) -> (r: GetIter<'a>)
        ensures
            r.links_left() == i@,
            r.store_view() == store@,
    {
        GetIter { links: i, store }
    }

    /// The store the entries come from.
    pub fn store(&self) -> (r: &Store)
        ensures
            r@ == self.store_view(),
    {
        self.store
    }

    /// The next linked entry.
    pub fn next(&mut self) -> (r: Option<Result<Entry, LinkError>>)
        ensures
            final(self).store_view() == old(self).store_view(),
            (item_view(r), final(self).links_left()) == spec_get_next(old(self).store_view(), old(self).links_left()),
    {
        match self.links.next() {
            None => None,
            Some(id) => read_item(self.store.get(&id)),
        }
    }

    /// Turns this iterator into one that deletes from the store the entries
    /// that link to no other entry.
    pub fn delete_unlinked(self) -> (r: DeleteUnlinkedIter)
        ensures
            r@ == self.links_left(),
    {
        DeleteUnlinkedIter { links: self.links }
    }

    /// Turns this iterator into one that leaves out the entries that link
    /// to no other entry. The entries stay in the store.
    pub fn without_unlinked(self) -> (r: FilterLinksIter<'a, LinkCountBound>)
        ensures
            r.getter_links_left() == self.links_left(),
            r.store_view() == self.store_view(),
            r.filter() == LinkCountBound::AtLeastOne,
    {
        FilterLinksIter::new(self, LinkCountBound::AtLeastOne)
    }

    /// Turns this iterator into one that removes the entries that have
    /// fewer than `n` links: the entries with `n` links or more are kept.
    /// The entries stay in the store.
    pub fn with_less_than_n_links(self, n: usize) -> (r: FilterLinksIter<'a, LinkCountBound>)
        ensures
            r.getter_links_left() == self.links_left(),
            r.store_view() == self.store_view(),
            r.filter() == LinkCountBound::AtLeast(n),
    {
        FilterLinksIter::new(self, LinkCountBound::AtLeast(n))
    }

    /// Turns this iterator into one that removes the entries that have
    /// more than `n` links: the entries with `n` links or fewer are kept.
    /// The entries stay in the store.
    pub fn with_more_than_n_links(self, n: usize) -> (r: FilterLinksIter<'a, LinkCountBound>)
        ensures
            r.getter_links_left() == self.links_left(),
            r.store_view() == self.store_view(),
            r.filter() == LinkCountBound::AtMost(n),
    {
        FilterLinksIter::new(self, LinkCountBound::AtMost(n))
    }

    /// Turns this iterator into one that leaves out the entries whose links
    /// `f` does not keep. The entries stay in the store.
    pub fn filtered_for_links<P: LinksFilter>(self, f: P) -> (r: FilterLinksIter<'a, P>)
        ensures
            r.getter_links_left() == self.links_left(),
            r.store_view() == self.store_view(),
            r.filter() == f,
    {
        FilterLinksIter::new(self, f)
    }
}

/// A test on the links of an entry, which decides whether the entry is
/// kept.
pub trait LinksFilter {
    /// Whether the entry with the links `links` is kept.
    spec fn spec_keep(&self, links: Seq<StoreIdView>) -> bool;

    /// Whether the entry with the links `links` is kept.
    fn keep(&self, links: &[Link]) -> (r: bool)
        ensures
            r == self.spec_keep(views(links@)),
    ;
}

/// A bound on the number of links of an entry; the entries within it are
/// kept.
pub enum LinkCountBound {
    /// At least one link.
    AtLeastOne,
    /// At least as many links as the number.
    AtLeast(usize),
    /// At most as many links as the number.
    AtMost(usize),
}

impl LinksFilter for LinkCountBound {
    open spec fn spec_keep(&self, links: Seq<StoreIdView>) -> bool {
        match *self {
            LinkCountBound::AtLeastOne => links.len() > 0,
            LinkCountBound::AtLeast(n) => links.len() >= n,
            LinkCountBound::AtMost(n) => links.len() <= n,
        }
    }

    fn keep(&self, links: &[Link]) -> (r: bool) {
        match *self {
            LinkCountBound::AtLeastOne => links.len() > 0,
            LinkCountBound::AtLeast(n) => links.len() >= n,
            LinkCountBound::AtMost(n) => links.len() <= n,
        }
    }
}

/// What the filtering iterator hands out next for the links `ids`, and the
/// links left after it: the next entry whose links `f` keeps; an error
/// where an entry does not read from the store or its links do not read;
/// nothing once the links are used up or a linked entry is not in the
/// store.
pub open spec fn spec_filter_next<P: LinksFilter>(store: StoreView, ids: Seq<StoreIdView>, f: P) -> (Option<Result<EntryView, LinkError>>, Seq<StoreIdView>)
    decreases ids.len(),
{
    if ids.len() == 0 {
        (None, ids)
    } else {
        match spec_read_item(spec_get(store, ids[0].id)) {
            None => (None, ids.drop_first()),
            Some(Err(err)) => (Some(Err(err)), ids.drop_first()),
            Some(Ok(e)) => match spec_links(e.header) {
                Err(err) => (Some(Err(LinkError::spec_wrap(LinkErrorKind::StoreReadError, err))), ids.drop_first()),
                Ok(ls) => if f.spec_keep(ls) {
                    (Some(Ok(e)), ids.drop_first())
                } else {
                    spec_filter_next(store, ids.drop_first(), f)
                },
            },
        }
    }
}

/// An iterator over linked entries that keeps those whose links pass a
/// test.
pub struct FilterLinksIter<'a, P> {
    getter: GetIter<'a>,
    f: P,
}

impl<'a, P: LinksFilter> FilterLinksIter<'a, P> {
    /// The links that are still to come.
    pub closed spec fn getter_links_left(&self) -> Seq<StoreIdView> {
        self.getter.links_left()
    }

    /// The store the entries come from.
    pub closed spec fn store_view(&self) -> StoreView {
        self.getter.store_view()
    }

    /// The test on the links.
    pub closed spec fn filter(&self) -> P {
        self.f
    }

    /// Keeps the entries of `gi` whose links `f` keeps.
    pub fn new(gi: GetIter<'a>, f: P) -> (r: FilterLinksIter<'a, P>)
        ensures
            r.getter_links_left() == gi.links_left(),
            r.store_view() == gi.store_view(),
            r.filter() == f,
    {
        FilterLinksIter { getter: gi, f }
    }

    /// The next entry whose links pass the test.
    pub fn next(&mut self) -> (r: Option<Result<Entry, LinkError>>)
        ensures
            final(self).store_view() == old(self).store_view(),
            final(self).filter() == old(self).filter(),
            (item_view(r), final(self).getter_links_left()) == spec_filter_next(
                old(self).store_view(),
                old(self).getter_links_left(),
                old(self).filter(),
            ),
    {
        loop
            invariant
                self.store_view() == old(self).store_view(),
                self.filter() == old(self).filter(),
                spec_filter_next(self.store_view(), self.getter_links_left(), self.filter())
                    == spec_filter_next(old(self).store_view(), old(self).getter_links_left(), old(self).filter()),
            decreases self.getter_links_left().len(),
        {
            let ghost ids = self.getter_links_left();
            match self.getter.next() {
                Some(Ok(fle)) => {
                    let links = match fle.get_internal_links() {
                        Err(e) => {
                            return Some(Err(LinkError::wrap(LinkErrorKind::StoreReadError, e)));
                        },
                        Ok(links) => links.into_vec(),
                    };
                    if !self.f.keep(links.as_slice()) {
                        continue ;
                    } else {
                        return Some(Ok(fle));
                    }
                },
                Some(Err(e)) => {
                    return Some(Err(e));
                },
                None => {
                    return None;
                },
            }
        }
    }
}

/// The store after deleting the entry with the local path `id`.
pub open spec fn store_without(store: StoreView, id: Seq<char>) -> StoreView {
    store.with_entries(store.entries.remove(index_of_entry(store.entries, id)))
}

/// What deleting unlinked entries hands out next for the links `ids`, the
/// links left after it and the store after it: each entry on the way that
/// links to nothing is deleted; the next entry with links is handed out;
/// an error where an entry does not read from the store, where its links do
/// not read, or where deleting it fails (a write error of the store, caused
/// by the store's error); nothing once the links are used up or a linked
/// entry is not in the store.
pub open spec fn spec_delete_next(store: StoreView, ids: Seq<StoreIdView>) -> (Option<Result<EntryView, LinkError>>, Seq<StoreIdView>, StoreView)
    decreases ids.len(),
{
    if ids.len() == 0 {
        (None, ids, store)
    } else {
        match spec_read_item(spec_get(store, ids[0].id)) {
            None => (None, ids.drop_first(), store),
            Some(Err(err)) => (Some(Err(err)), ids.drop_first(), store),
            Some(Ok(e)) => match spec_links(e.header) {
                Err(err) => (Some(Err(LinkError::spec_wrap(LinkErrorKind::StoreReadError, err))), ids.drop_first(), store),
                Ok(ls) => if ls.len() == 0 {
                    match fault_of(store.delete_faults, e.location.id) {
                        Some(de) => (
                            Some(Err(LinkError::spec_from_store(LinkErrorKind::StoreWriteError, de))),
                            ids.drop_first(),
                            store,
                        ),
                        None => spec_delete_next(store_without(store, e.location.id), ids.drop_first()),
                    }
                } else {
                    (Some(Ok(e)), ids.drop_first(), store)
                },
            },
        }
    }
}

/// An iterator over linked entries that deletes from the store the entries
/// that link to no other entry, and hands out the others.
pub struct DeleteUnlinkedIter {
    links: LinkIter,
}

impl View for DeleteUnlinkedIter {
    type V = Seq<StoreIdView>;

    /// The links that are still to come.
    closed spec fn view(&self) -> Seq<StoreIdView> {
        self.links@
    }
}

impl DeleteUnlinkedIter {
    /// The next entry with links; deletes from `store` the entries on the
    /// way that have none.
    pub fn next(&mut self, store: &mut Store) -> (r: Option<Result<Entry, LinkError>>)
        ensures
            (item_view(r), final(self)@, final(store)@) == spec_delete_next(old(store)@, old(self)@),
            old(store).wf() ==> final(store).wf(),
    {
        loop
            invariant
                spec_delete_next(store@, self@) == spec_delete_next(old(store)@, old(self)@),
                old(store).wf() ==> store.wf(),
            decreases self@.len(),
        {
            let ghost ids = self@;
            let ghost st = store@;
            let id = match self.links.next() {
                None => {
                    return None;
                },
                Some(id) => id,
            };
            let fle = match read_item(store.get(&id)) {
                None => {
                    return None;
                },
                Some(Err(e)) => {
                    return Some(Err(e));
                },
                Some(Ok(x)) => x,
            };
            let links = match fle.get_internal_links() {
                Err(e) => {
                    return Some(Err(LinkError::wrap(LinkErrorKind::StoreReadError, e)));
                },
                Ok(links) => links,
            };
            let ghost ls = links@;
            proof {
                assert(ids.len() > 0);
                assert(spec_get(st, ids[0].id) == Ok::<Option<EntryView>, StoreErrorKind>(Some(fle@)));
                assert(spec_links(fle@.header) == Ok::<Seq<StoreIdView>, LinkError>(ls));
            }
            if links.count() == 0 {
                match store.delete(&fle.location) {
                    Ok(()) => {
                        proof {
                            assert(store@ == store_without(st, fle@.location.id));
                            assert(spec_delete_next(st, ids) == spec_delete_next(store_without(st, fle@.location.id), ids.drop_first()));
                        }
                    },
                    Err(e) => {
                        return Some(Err(LinkError::from_store(LinkErrorKind::StoreWriteError, e)));
                    },
                }
            } else {
                return Some(Ok(fle));
            }
        }
    }
}

} // verus!
