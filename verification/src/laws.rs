use vstd::prelude::*;
use crate::entry::EntryView;
use crate::header::{ImagView, ValueView, holds_links, item_names};
use crate::internal::{add_post, relinks_ok, remove_post, set_post, spec_links, spec_relink_result, rewritten, without_id};
use crate::header::{spec_read_links, spec_set_links_result};
use crate::header::EntryHeader;
use crate::error::{LinkError, LinkErrorKind, StoreErrorKind};
use crate::iter::{LinkCountBound, LinksFilter, not_link, spec_delete_next, spec_filter_next, spec_get_next, store_without};
use crate::pred::{LinkCountOp, spec_compare};
use crate::store::{
    StoreView, distinct_ids, fault_of, has_entry, index_of_entry, lemma_index_of_entry, lemma_remove_distinct,
    lookup, spec_get,
};
use crate::order::{is_canonical, lemma_canonical_unique};
use crate::storeid::{StoreIdView, ids_of, is_absolute};

verus! {

/// Links read as links bound to no store, with relative paths.
pub open spec fn all_baseless_relative(ls: Seq<StoreIdView>) -> bool {
    forall|i: int| 0 <= i < ls.len() ==> (#[trigger] ls[i]).base is None && !is_absolute(ls[i].id)
}

/// What reads as links holds links bound to no store, with relative paths.
pub proof fn lemma_links_are_baseless(h: ImagView)
    requires
        spec_links(h) is Ok,
    ensures
        all_baseless_relative(spec_links(h)->Ok_0),
{
    if let ImagView::Table { links: Some(ValueView::Array(items)) } = h {
        assert forall|i: int| 0 <= i < items.len() implies !is_absolute(#[trigger] items[i]->Str_0) by {
        }
    }
}

/// Read after write: a header whose links hold the relative paths `names`
/// reads as those links, bound to no store, each once, in ascending order.
pub proof fn law_links_read_back(h: ImagView, names: Set<Seq<char>>)
    requires
        holds_links(h, names),
        forall|x: Seq<char>| names.contains(x) ==> !is_absolute(x),
    ensures
        spec_links(h) is Ok,
        is_canonical(ids_of(spec_links(h)->Ok_0), names),
        all_baseless_relative(spec_links(h)->Ok_0),
{
    let items = h->Table_links->Some_0->Array_0;
    assert forall|i: int| 0 <= i < items.len() implies !is_absolute(#[trigger] items[i]->Str_0) by {
        assert(item_names(items)[i] == items[i]->Str_0);
        assert(item_names(items).to_set().contains(items[i]->Str_0));
    }
    let ls = spec_links(h)->Ok_0;
    assert(ids_of(ls) =~= item_names(items));
}

/// The set of local paths of what a header's links read as.
pub open spec fn link_ids(h: ImagView) -> Set<Seq<char>> {
    ids_of(spec_links(h)->Ok_0).to_set()
}

/// Writing succeeded only where the header's links read and `imag` is a
/// table; what was written then reads back.
proof fn lemma_relink_ok(old_h: ImagView, new_h: ImagView, names: Set<Seq<char>>)
    requires
        spec_relink_result(old_h) is Ok,
        rewritten(old_h, new_h, names),
        forall|x: Seq<char>| names.contains(x) ==> !is_absolute(x),
    ensures
        old_h is Table,
        spec_links(new_h) is Ok,
        is_canonical(ids_of(spec_links(new_h)->Ok_0), names),
        link_ids(new_h) == names,
        holds_links(new_h, names),
{
    law_links_read_back(new_h, names);
}

/// The local paths of the links but those to `id`.
proof fn lemma_without_id_set(ls: Seq<StoreIdView>, id: Seq<char>)
    requires
        all_baseless_relative(ls),
    ensures
        ids_of(without_id(ls, id)).to_set() == ids_of(ls).to_set().remove(id),
{
    broadcast use vstd::seq_lib::group_filter_ensures;
    let p = not_link(StoreIdView { base: None, id });
    let f = ls.filter(p);
    assert forall|x: Seq<char>| ids_of(f).to_set().contains(x) <==> ids_of(ls).to_set().remove(id).contains(x) by {
        if ids_of(f).to_set().contains(x) {
            let i = choose|i: int| 0 <= i < ids_of(f).len() && ids_of(f)[i] == x;
            assert(p(f[i]));
            assert(f.contains(f[i]));
            ls.lemma_filter_contains_rev(p, f[i]);
            let j = choose|j: int| 0 <= j < ls.len() && ls[j] == f[i];
            assert(ids_of(ls)[j] == x);
            assert(ids_of(ls).to_set().contains(x));
            assert(x != id);
        }
        if ids_of(ls).to_set().remove(id).contains(x) {
            let j = choose|j: int| 0 <= j < ls.len() && ids_of(ls)[j] == x;
            assert(ls[j].base is None);
            assert(p(ls[j]));
            assert(f.contains(ls[j]));
            let i = choose|i: int| 0 <= i < f.len() && f[i] == ls[j];
            assert(ids_of(f)[i] == x);
        }
    }
    assert(ids_of(f).to_set() =~= ids_of(ls).to_set().remove(id));
}

/// Links go both ways: once `s0` is linked to `l0` without error, the links
/// of each are its links before and the other entry, each once, in
/// ascending order.
pub proof fn law_link_is_mutual(s0: EntryView, l0: EntryView, s1: EntryView, l1: EntryView)
    requires
        add_post(s0, l0, s1, l1, Ok(())),
        !is_absolute(s0.location.id),
        !is_absolute(l0.location.id),
    ensures
        spec_links(s0.header) is Ok,
        spec_links(l0.header) is Ok,
        spec_links(s1.header) is Ok,
        spec_links(l1.header) is Ok,
        link_ids(s1.header) == link_ids(s0.header).insert(l0.location.id),
        link_ids(l1.header) == link_ids(l0.header).insert(s0.location.id),
        holds_links(s1.header, link_ids(s1.header)),
        holds_links(l1.header, link_ids(l1.header)),
        s1.location == s0.location,
        l1.location == l0.location,
{
    lemma_links_are_baseless(l0.header);
    lemma_links_are_baseless(s0.header);
    let nl = link_ids(l0.header).insert(s0.location.id);
    let ns = link_ids(s0.header).insert(l0.location.id);
    assert forall|x: Seq<char>| nl.contains(x) implies !is_absolute(x) by {
        if x != s0.location.id {
            let ls = spec_links(l0.header)->Ok_0;
            let i = choose|i: int| 0 <= i < ids_of(ls).len() && ids_of(ls)[i] == x;
            assert(!is_absolute(ls[i].id));
        }
    }
    assert forall|x: Seq<char>| ns.contains(x) implies !is_absolute(x) by {
        if x != l0.location.id {
            let ls = spec_links(s0.header)->Ok_0;
            let i = choose|i: int| 0 <= i < ids_of(ls).len() && ids_of(ls)[i] == x;
            assert(!is_absolute(ls[i].id));
        }
    }
    lemma_relink_ok(l0.header, l1.header, nl);
    lemma_relink_ok(s0.header, s1.header, ns);
}

/// Unlinking takes the link out on both sides: once `s0` is unlinked from
/// `l0` without error, the links of each are its links before but the
/// other entry, each once, in ascending order.
pub proof fn law_unlink_is_mutual(s0: EntryView, l0: EntryView, s1: EntryView, l1: EntryView)
    requires
        remove_post(s0, l0, s1, l1, Ok(())),
    ensures
        spec_links(s0.header) is Ok,
        spec_links(l0.header) is Ok,
        spec_links(s1.header) is Ok,
        spec_links(l1.header) is Ok,
        link_ids(s1.header) == link_ids(s0.header).remove(l0.location.id),
        link_ids(l1.header) == link_ids(l0.header).remove(s0.location.id),
        holds_links(s1.header, link_ids(s1.header)),
        holds_links(l1.header, link_ids(l1.header)),
        s1.location == s0.location,
        l1.location == l0.location,
{
    lemma_links_are_baseless(l0.header);
    lemma_links_are_baseless(s0.header);
    let lls = spec_links(l0.header)->Ok_0;
    let sls = spec_links(s0.header)->Ok_0;
    lemma_without_id_set(lls, s0.location.id);
    lemma_without_id_set(sls, l0.location.id);
    let nl = link_ids(l0.header).remove(s0.location.id);
    let ns = link_ids(s0.header).remove(l0.location.id);
    assert forall|x: Seq<char>| nl.contains(x) implies !is_absolute(x) by {
        let i = choose|i: int| 0 <= i < ids_of(lls).len() && ids_of(lls)[i] == x;
        assert(!is_absolute(lls[i].id));
    }
    assert forall|x: Seq<char>| ns.contains(x) implies !is_absolute(x) by {
        let i = choose|i: int| 0 <= i < ids_of(sls).len() && ids_of(sls)[i] == x;
        assert(!is_absolute(sls[i].id));
    }
    lemma_relink_ok(l0.header, l1.header, nl);
    lemma_relink_ok(s0.header, s1.header, ns);
}

/// Two headers that hold the same links, each once and in order, are the
/// same.
pub proof fn lemma_holds_links_unique(h1: ImagView, h2: ImagView, names: Set<Seq<char>>)
    requires
        holds_links(h1, names),
        holds_links(h2, names),
    ensures
        h1 == h2,
{
    let i1 = h1->Table_links->Some_0->Array_0;
    let i2 = h2->Table_links->Some_0->Array_0;
    lemma_canonical_unique(item_names(i1), item_names(i2));
    assert(i1.len() == item_names(i1).len());
    assert forall|i: int| 0 <= i < i1.len() implies i1[i] == i2[i] by {
        assert(item_names(i1)[i] == item_names(i2)[i]);
    }
    assert(i1 =~= i2);
}

/// Linking is idempotent: linking two entries that were just linked changes
/// neither of them.
pub proof fn law_link_idempotent(
    s0: EntryView,
    l0: EntryView,
    s1: EntryView,
    l1: EntryView,
    s2: EntryView,
    l2: EntryView,
)
    requires
        add_post(s0, l0, s1, l1, Ok(())),
        add_post(s1, l1, s2, l2, Ok(())),
        !is_absolute(s0.location.id),
        !is_absolute(l0.location.id),
    ensures
        s2 == s1,
        l2 == l1,
{
    law_link_is_mutual(s0, l0, s1, l1);
    law_link_is_mutual(s1, l1, s2, l2);
    assert(link_ids(s2.header) =~= link_ids(s1.header));
    assert(link_ids(l2.header) =~= link_ids(l1.header));
    lemma_holds_links_unique(s1.header, s2.header, link_ids(s1.header));
    lemma_holds_links_unique(l1.header, l2.header, link_ids(l1.header));
}

/// Unlinking undoes linking: two entries whose links are kept in order,
/// and which did not link to each other, are as they were after they are
/// linked and then unlinked.
pub proof fn law_unlink_undoes_link(
    s0: EntryView,
    l0: EntryView,
    s1: EntryView,
    l1: EntryView,
    s2: EntryView,
    l2: EntryView,
)
    requires
        holds_links(s0.header, link_ids(s0.header)),
        holds_links(l0.header, link_ids(l0.header)),
        spec_links(s0.header) is Ok,
        spec_links(l0.header) is Ok,
        !link_ids(s0.header).contains(l0.location.id),
        !link_ids(l0.header).contains(s0.location.id),
        add_post(s0, l0, s1, l1, Ok(())),
        remove_post(s1, l1, s2, l2, Ok(())),
        !is_absolute(s0.location.id),
        !is_absolute(l0.location.id),
    ensures
        s2 == s0,
        l2 == l0,
{
    law_link_is_mutual(s0, l0, s1, l1);
    law_unlink_is_mutual(s1, l1, s2, l2);
    assert(link_ids(s2.header) =~= link_ids(s0.header));
    assert(link_ids(l2.header) =~= link_ids(l0.header));
    lemma_holds_links_unique(s0.header, s2.header, link_ids(s0.header));
    lemma_holds_links_unique(l0.header, l2.header, link_ids(l0.header));
}

/// A new entry has no links.
pub proof fn law_new_entry_has_no_links()
    ensures
        spec_links(EntryHeader::new_view()) == Ok::<Seq<StoreIdView>, crate::error::LinkError>(Seq::empty()),
{
    assert(Seq::<crate::header::ItemView>::empty().map_values(
        |it: crate::header::ItemView| StoreIdView { base: None, id: it->Str_0 },
    ) =~= Seq::empty());
}

/// The filtering iterators hand out only entries whose links pass their
/// test.
pub proof fn law_filter_yields_kept<P: LinksFilter>(store: StoreView, ids: Seq<StoreIdView>, f: P)
    ensures
        spec_filter_next(store, ids, f).0 matches Some(Ok(e)) ==> spec_links(e.header) is Ok
            && f.spec_keep(spec_links(e.header)->Ok_0),
    decreases ids.len(),
{
    if ids.len() > 0 {
        law_filter_yields_kept(store, ids.drop_first(), f);
    }
}

/// Deleting unlinked entries hands out only entries that link to some
/// other entry.
pub proof fn law_delete_unlinked_yields_linked(store: StoreView, ids: Seq<StoreIdView>)
    ensures
        spec_delete_next(store, ids).0 matches Some(Ok(e)) ==> spec_links(e.header) is Ok
            && spec_links(e.header)->Ok_0.len() > 0,
    decreases ids.len(),
{
    if ids.len() > 0 {
        if let Ok(Some(e)) = spec_get(store, ids[0].id) {
            if let Ok(ls) = spec_links(e.header) {
                if ls.len() == 0 {
                    law_delete_unlinked_yields_linked(store_without(store, e.location.id), ids.drop_first());
                }
            }
        }
    }
}

/// Deleting unlinked entries deletes only entries that link to nothing:
/// an entry of the store that is gone afterwards had no links.
pub proof fn law_delete_unlinked_deletes_only_unlinked(store: StoreView, ids: Seq<StoreIdView>, x: EntryView)
    requires
        store.entries.contains(x),
        !spec_delete_next(store, ids).2.entries.contains(x),
    ensures
        spec_links(x.header) == Ok::<Seq<StoreIdView>, crate::error::LinkError>(Seq::empty()),
    decreases ids.len(),
{
    if ids.len() > 0 {
        if let Ok(Some(e)) = spec_get(store, ids[0].id) {
            if let Ok(ls) = spec_links(e.header) {
                if ls.len() == 0 {
                    let next = store_without(store, e.location.id);
                    let k = index_of_entry(store.entries, ids[0].id);
                    lemma_index_of_entry(store.entries, ids[0].id);
                    let i = choose|i: int| 0 <= i < store.entries.len() && store.entries[i] == x;
                    if next.entries.contains(x) {
                        law_delete_unlinked_deletes_only_unlinked(next, ids.drop_first(), x);
                    } else {
                        assert(e.location.id == ids[0].id);
                        assert(index_of_entry(store.entries, e.location.id) == k);
                        if i < k {
                            assert(next.entries[i] == x);
                        } else if i > k {
                            assert(next.entries[i - 1] == x);
                        }
                        assert(x == e);
                        assert(ls =~= Seq::<StoreIdView>::empty());
                    }
                }
            }
        }
    }
}

/// The link-count test compares the number of links with the bound: `LT`
/// passes exactly on fewer links, `EQ` on as many, `GT` on more.
pub proof fn law_link_count_compare(op: LinkCountOp, count: nat, n: nat)
    ensures
        op == LinkCountOp::LT ==> (spec_compare(op, count, n) <==> count < n),
        op == LinkCountOp::EQ ==> (spec_compare(op, count, n) <==> count == n),
        op == LinkCountOp::GT ==> (spec_compare(op, count, n) <==> count > n),
{
}

/// What each bound on the number of links keeps: `AtLeastOne` the entries
/// with a link, `AtLeast(n)` those with `n` links or more, `AtMost(n)` those
/// with `n` links or fewer.
pub proof fn law_link_count_bounds(b: LinkCountBound, links: Seq<StoreIdView>)
    ensures
        b == LinkCountBound::AtLeastOne ==> (b.spec_keep(links) <==> links.len() > 0),
        b matches LinkCountBound::AtLeast(n) ==> (b.spec_keep(links) <==> links.len() >= n),
        b matches LinkCountBound::AtMost(n) ==> (b.spec_keep(links) <==> links.len() <= n),
{
}

/// The getter hands out the store's own entry for the next link: an entry
/// it hands out is one of the store's entries, at that link's local path;
/// it hands out nothing only when the links are used up or no entry has
/// that path; a failed read becomes a read error caused by the store's
/// error. It uses up exactly one link, if one is left.
pub proof fn law_get_next(store: StoreView, ids: Seq<StoreIdView>)
    ensures
        spec_get_next(store, ids).1 == (if ids.len() == 0 { ids } else { ids.drop_first() }),
        spec_get_next(store, ids).0 matches Some(Ok(e)) ==> (ids.len() > 0 && store.entries.contains(e)
            && e.location.id == ids[0].id && fault_of(store.read_faults, ids[0].id) is None),
        spec_get_next(store, ids).0 is None ==> ids.len() == 0 || (!has_entry(store.entries, ids[0].id)
            && fault_of(store.read_faults, ids[0].id) is None),
        spec_get_next(store, ids).0 matches Some(Err(err)) ==> (ids.len() > 0 && (fault_of(store.read_faults, ids[0].id)
            matches Some(se) && err == LinkError::spec_from_store(LinkErrorKind::StoreReadError, se))),
{
    if ids.len() > 0 && has_entry(store.entries, ids[0].id) {
        lemma_index_of_entry(store.entries, ids[0].id);
    }
}

/// The entry at `id` reads from the store and its links read, but `f` does
/// not keep them.
pub open spec fn passed_by<P: LinksFilter>(store: StoreView, id: Seq<char>, f: P) -> bool {
    &&& spec_get(store, id) is Ok
    &&& spec_get(store, id)->Ok_0 is Some
    &&& spec_links(spec_get(store, id)->Ok_0->Some_0.header) is Ok
    &&& !f.spec_keep(spec_links(spec_get(store, id)->Ok_0->Some_0.header)->Ok_0)
}

/// The filtering iterator scans the links in order: it uses up a prefix of
/// them; every entry it passes over on the way reads, and `f` does not
/// keep its links; it stops at the first entry whose links `f` keeps and
/// hands that entry out, at the first error, at the first link with no
/// entry, or at the end of the links.
#[verifier::rlimit(60)]
pub proof fn law_filter_next_scan<P: LinksFilter>(store: StoreView, ids: Seq<StoreIdView>, f: P)
    ensures
        ({
            let res = spec_filter_next(store, ids, f);
            let k = ids.len() - res.1.len();
            &&& 0 <= k <= ids.len()
            &&& res.1 == ids.skip(k)
            &&& forall|j: int| #![trigger ids[j]] 0 <= j < k - 1 ==> passed_by(store, ids[j].id, f)
            &&& res.0 matches Some(Ok(e)) ==> (k > 0 && spec_get(store, ids[k - 1].id) == Ok::<Option<EntryView>, StoreErrorKind>(Some(e))
                && spec_links(e.header) is Ok && f.spec_keep(spec_links(e.header)->Ok_0))
            &&& res.0 is None ==> (k == 0 && ids.len() == 0) || (k > 0 && (spec_get(store, ids[k - 1].id)
                == Ok::<Option<EntryView>, StoreErrorKind>(None) || (k == ids.len() && passed_by(store, ids[k - 1].id, f))))
            &&& res.0 matches Some(Err(err)) ==> (k > 0 && ((spec_get(store, ids[k - 1].id) matches Err(se)
                && err == LinkError::spec_from_store(LinkErrorKind::StoreReadError, se))
                || (spec_get(store, ids[k - 1].id) matches Ok(Some(e)) && (spec_links(e.header) matches Err(le)
                && err == LinkError::spec_wrap(LinkErrorKind::StoreReadError, le)))))
        }),
    decreases ids.len(),
{
    if ids.len() == 0 {
        assert(ids.skip(0) =~= ids);
    } else {
        let rest = ids.drop_first();
        law_filter_next_scan(store, rest, f);
        let res = spec_filter_next(store, ids, f);
        if res.1 == rest {
            assert(ids.skip(1) =~= rest);
        } else {
            let k2 = rest.len() - res.1.len();
            assert(res == spec_filter_next(store, rest, f));
            assert(passed_by(store, ids[0].id, f));
            assert(rest.skip(k2) =~= ids.skip(k2 + 1));
            assert forall|j: int| #![trigger ids[j]] 0 <= j < k2 + 1 - 1 implies passed_by(store, ids[j].id, f) by {
                if j > 0 {
                    assert(rest[j - 1] == ids[j]);
                }
            }
            if k2 > 0 {
                assert(rest[k2 - 1] == ids[k2]);
            }
        }
    }
}

/// Deleting unlinked entries scans the links in order: it uses up a prefix
/// of them, and every entry it passes over on the way is gone from the
/// store afterwards; so is the last one where it hands out nothing. An
/// entry it hands out is still there. The store afterwards holds only
/// entries it held before, at the same path and with the same faults.
#[verifier::rlimit(60)]
pub proof fn law_delete_next_scan(store: StoreView, ids: Seq<StoreIdView>)
    requires
        distinct_ids(store.entries),
    ensures
        ({
            let res = spec_delete_next(store, ids);
            let fin = res.2;
            let k = ids.len() - res.1.len();
            &&& 0 <= k <= ids.len()
            &&& res.1 == ids.skip(k)
            &&& fin.path == store.path
            &&& fin.read_faults == store.read_faults
            &&& fin.delete_faults == store.delete_faults
            &&& distinct_ids(fin.entries)
            &&& forall|x: EntryView| fin.entries.contains(x) ==> store.entries.contains(x)
            &&& forall|j: int| #![trigger ids[j]] 0 <= j < k - 1
                ==> spec_get(fin, ids[j].id) == Ok::<Option<EntryView>, StoreErrorKind>(None)
            &&& res.0 is None && k > 0 ==> spec_get(fin, ids[k - 1].id) == Ok::<Option<EntryView>, StoreErrorKind>(None)
            &&& res.0 matches Some(Ok(e)) ==> (k > 0 && spec_get(fin, ids[k - 1].id)
                == Ok::<Option<EntryView>, StoreErrorKind>(Some(e)) && spec_links(e.header) is Ok
                && spec_links(e.header)->Ok_0.len() > 0)
        }),
    decreases ids.len(),
{
    if ids.len() == 0 {
        assert(ids.skip(0) =~= ids);
        return;
    }
    let rest = ids.drop_first();
    let id0 = ids[0].id;
    let res = spec_delete_next(store, ids);
    if has_entry(store.entries, id0) {
        lemma_index_of_entry(store.entries, id0);
    }
    if let Ok(Some(e)) = spec_get(store, id0) {
        if let Ok(ls) = spec_links(e.header) {
            if ls.len() == 0 && fault_of(store.delete_faults, e.location.id) is None {
                let idx = index_of_entry(store.entries, id0);
                assert(e.location.id == id0);
                let next = store_without(store, e.location.id);
                lemma_remove_distinct(store.entries, idx);
                law_delete_next_scan(next, rest);
                assert(res == spec_delete_next(next, rest));
                let fin = res.2;
                let k2 = rest.len() - res.1.len();
                assert(rest.skip(k2) =~= ids.skip(k2 + 1));
                // No entry of `next` has the local path `id0`.
                assert forall|x: EntryView| next.entries.contains(x) implies x.location.id != id0 by {
                    let i = choose|i: int| 0 <= i < next.entries.len() && next.entries[i] == x;
                    if i < idx {
                        assert(store.entries[i] == x);
                    } else {
                        assert(store.entries[i + 1] == x);
                    }
                }
                assert forall|x: EntryView| next.entries.contains(x) implies store.entries.contains(x) by {
                    let i = choose|i: int| 0 <= i < next.entries.len() && next.entries[i] == x;
                    if i < idx {
                        assert(store.entries[i] == x);
                    } else {
                        assert(store.entries[i + 1] == x);
                    }
                }
                assert(!has_entry(fin.entries, id0)) by {
                    if has_entry(fin.entries, id0) {
                        let i = choose|i: int| 0 <= i < fin.entries.len() && (#[trigger] fin.entries[i]).location.id == id0;
                        assert(fin.entries.contains(fin.entries[i]));
                    }
                }
                assert(spec_get(fin, id0) == Ok::<Option<EntryView>, StoreErrorKind>(None));
                assert forall|j: int| #![trigger ids[j]] 0 <= j < k2 + 1 - 1
                    implies spec_get(fin, ids[j].id) == Ok::<Option<EntryView>, StoreErrorKind>(None) by {
                    if j > 0 {
                        assert(rest[j - 1] == ids[j]);
                    }
                }
                if k2 > 0 {
                    assert(rest[k2 - 1] == ids[k2]);
                }
                return;
            }
        }
    }
    assert(ids.skip(1) =~= rest);
}

/// Writing the links of a header whose `imag` is a table answers with what
/// was there before, as reading them would have.
pub proof fn law_set_links_answers_old_value(h: ImagView)
    requires
        h is Table,
    ensures
        spec_set_links_result(h) == spec_read_links(h),
{
}

/// Setting the links of an entry whose `imag` is a table, where every
/// entry takes its link back, answers with the links the entry had before.
pub proof fn law_set_internal_links_answers_old_links(
    s0: EntryView,
    ls0: Seq<EntryView>,
    s1: EntryView,
    ls1: Seq<EntryView>,
    r: Result<Seq<StoreIdView>, LinkError>,
)
    requires
        set_post(s0, ls0, s1, ls1, r),
        relinks_ok(ls0, ls0.len() as int),
        s0.header is Table,
    ensures
        r == spec_links(s0.header),
{
}

} // verus!
