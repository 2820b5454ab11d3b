use entrylink::entry::Entry;
use entrylink::error::{CounterErrorKind, ErrorCause, LinkErrorKind, StoreErrorKind};
use entrylink::header::{ArrayItem, EntryHeader, HeaderValue, ImagSection};
use entrylink::internal::{process_rw_result, rewrite_links, InternalLinker};
use entrylink::iter::{IntoValues, LinkCountBound, LinkIter};
use entrylink::order::sorted_unique;
use entrylink::pred::{FilterLinkCount, LinkCountOp};
use entrylink::store::Store;
use entrylink::storeid::StoreId;

fn ids(e: &Entry) -> Vec<String> {
    e.get_internal_links()
        .unwrap()
        .into_vec()
        .iter()
        .map(|l| l.local().clone())
        .collect()
}

fn entry_with_links(id: &str, links: Option<HeaderValue>) -> Entry {
    let loc = StoreId::new(Some("/".to_string()), id.to_string()).unwrap();
    Entry::from_parts(loc, EntryHeader { imag: ImagSection::Table { links } })
}

fn strs(v: &[&str]) -> HeaderValue {
    HeaderValue::Array(v.iter().map(|s| ArrayItem::Str(s.to_string())).collect())
}

#[test]
fn links_are_sorted_and_unique() {
    let mut store = Store::new("/".to_string());
    let mut a = store.create("a".to_string()).unwrap();
    let mut c = store.create("c".to_string()).unwrap();
    let mut b = store.create("b".to_string()).unwrap();
    assert!(a.add_internal_link(&mut c).is_ok());
    assert!(a.add_internal_link(&mut b).is_ok());
    assert!(a.add_internal_link(&mut c).is_ok());
    assert_eq!(ids(&a), vec!["b".to_string(), "c".to_string()]);
    assert_eq!(ids(&b), vec!["a".to_string()]);
    assert_eq!(ids(&c), vec!["a".to_string()]);
}

#[test]
fn linking_is_mutual() {
    let mut x = entry_with_links("x", Some(strs(&["q"])));
    let mut y = entry_with_links("y", Some(strs(&["p"])));
    assert!(x.add_internal_link(&mut y).is_ok());
    assert_eq!(ids(&x), vec!["q".to_string(), "y".to_string()]);
    assert_eq!(ids(&y), vec!["p".to_string(), "x".to_string()]);
}

#[test]
fn unlinking_is_mutual() {
    let mut x = entry_with_links("x", Some(strs(&["q", "y"])));
    let mut y = entry_with_links("y", Some(strs(&["p", "x"])));
    assert!(x.remove_internal_link(&mut y).is_ok());
    assert_eq!(ids(&x), vec!["q".to_string()]);
    assert_eq!(ids(&y), vec!["p".to_string()]);
}

#[test]
fn linking_twice_is_linking_once() {
    let mut x = entry_with_links("x", Some(strs(&[])));
    let mut y = entry_with_links("y", Some(strs(&[])));
    assert!(x.add_internal_link(&mut y).is_ok());
    let once_x = ids(&x);
    let once_y = ids(&y);
    assert!(x.add_internal_link(&mut y).is_ok());
    assert_eq!(ids(&x), once_x);
    assert_eq!(ids(&y), once_y);
}

#[test]
fn unlinking_undoes_linking() {
    let mut x = entry_with_links("x", Some(strs(&["k", "z"])));
    let mut y = entry_with_links("y", Some(strs(&["a"])));
    assert!(x.add_internal_link(&mut y).is_ok());
    assert_eq!(ids(&x), vec!["k".to_string(), "y".to_string(), "z".to_string()]);
    assert!(x.remove_internal_link(&mut y).is_ok());
    assert_eq!(ids(&x), vec!["k".to_string(), "z".to_string()]);
    assert_eq!(ids(&y), vec!["a".to_string()]);
}

#[test]
fn header_that_is_not_a_table_fails_to_read() {
    let loc = StoreId::new(None, "n".to_string()).unwrap();
    let e = Entry::from_parts(loc, EntryHeader { imag: ImagSection::NotATable });
    let err = e.get_internal_links().unwrap_err();
    assert_eq!(err.kind, LinkErrorKind::EntryHeaderReadError);
    assert!(matches!(err.cause, Some(ErrorCause::Store(StoreErrorKind::HeaderPathTypeFailure))));
}

#[test]
fn links_of_wrong_type() {
    let e = entry_with_links("w", Some(HeaderValue::Str("x".to_string())));
    let err = e.get_internal_links().unwrap_err();
    assert_eq!(err.kind, LinkErrorKind::ExistingLinkTypeWrong);
    assert!(err.cause.is_none());

    let e = entry_with_links("w", Some(HeaderValue::Array(vec![ArrayItem::Str("a".to_string()), ArrayItem::Other])));
    let err = e.get_internal_links().unwrap_err();
    assert_eq!(err.kind, LinkErrorKind::ExistingLinkTypeWrong);

    let e = entry_with_links("w", Some(HeaderValue::Other));
    assert_eq!(e.get_internal_links().unwrap_err().kind, LinkErrorKind::ExistingLinkTypeWrong);
}

#[test]
fn absolute_link_is_no_store_id() {
    let e = entry_with_links("w", Some(strs(&["a", "/etc/passwd"])));
    let err = e.get_internal_links().unwrap_err();
    assert_eq!(err.kind, LinkErrorKind::StoreIdError);
    assert!(matches!(err.cause, Some(ErrorCause::Store(StoreErrorKind::StoreIdLocalPartAbsolute))));
}

#[test]
fn missing_links_read_as_none() {
    let e = entry_with_links("w", None);
    assert_eq!(ids(&e).len(), 0);
    let loc = StoreId::new(None, "m".to_string()).unwrap();
    let e = Entry::from_parts(loc, EntryHeader { imag: ImagSection::Missing });
    assert_eq!(ids(&e).len(), 0);
}

#[test]
fn linking_to_entry_without_imag_section_fails() {
    let loc = StoreId::new(None, "m".to_string()).unwrap();
    let mut m = Entry::from_parts(loc, EntryHeader { imag: ImagSection::Missing });
    let mut x = entry_with_links("x", Some(strs(&[])));
    let err = x.add_internal_link(&mut m).unwrap_err();
    assert_eq!(err.kind, LinkErrorKind::EntryHeaderReadError);
    assert!(matches!(err.cause, Some(ErrorCause::Store(StoreErrorKind::HeaderKeyNotFound))));
    assert_eq!(ids(&x).len(), 0);
}

#[test]
fn linking_from_entry_with_bad_links_fails_and_changes_nothing() {
    let mut bad = entry_with_links("bad", Some(HeaderValue::Other));
    let mut x = entry_with_links("x", Some(strs(&[])));
    let err = x.add_internal_link(&mut bad).unwrap_err();
    assert_eq!(err.kind, LinkErrorKind::ExistingLinkTypeWrong);
    assert_eq!(ids(&x).len(), 0);
}

#[test]
fn rewrite_answers_with_the_old_links() {
    let mut h = EntryHeader { imag: ImagSection::Table { links: Some(HeaderValue::Other) } };
    let links = LinkIter::new(vec![StoreId::new_baseless("b".to_string()).unwrap()]);
    let r = rewrite_links(&mut h, links);
    assert_eq!(r.unwrap_err().kind, LinkErrorKind::ExistingLinkTypeWrong);
    let e = Entry::from_parts(StoreId::new_baseless("e".to_string()).unwrap(), h);
    assert_eq!(ids(&e), vec!["b".to_string()]);
}

#[test]
fn process_rw_result_cases() {
    let r = process_rw_result(Err(StoreErrorKind::HeaderPathTypeFailure));
    assert_eq!(r.unwrap_err().kind, LinkErrorKind::EntryHeaderReadError);
    assert_eq!(process_rw_result(Ok(None)).unwrap().count(), 0);
    let ls = process_rw_result(Ok(Some(strs(&["z", "a"])))).unwrap().into_vec();
    assert_eq!(ls.len(), 2);
    assert_eq!(ls[0].local(), "z");
    assert_eq!(ls[1].local(), "a");
}

#[test]
fn into_values_sorts_and_removes_duplicates() {
    let v = vec![
        StoreId::new(Some("/base".to_string()), "b".to_string()).unwrap(),
        StoreId::new_baseless("ab".to_string()).unwrap(),
        StoreId::new_baseless("a".to_string()).unwrap(),
        StoreId::new_baseless("b".to_string()).unwrap(),
    ];
    let vals = LinkIter::new(v).into_values();
    let names: Vec<String> = vals
        .iter()
        .map(|it| match it {
            ArrayItem::Str(s) => s.clone(),
            ArrayItem::Other => panic!("not a string"),
        })
        .collect();
    assert_eq!(names, vec!["a".to_string(), "ab".to_string(), "b".to_string()]);
}

#[test]
fn sorted_unique_orders_by_code_point() {
    let v = vec!["é".to_string(), "z".to_string(), "A".to_string(), "z".to_string(), "".to_string()];
    assert_eq!(sorted_unique(v), vec!["".to_string(), "A".to_string(), "z".to_string(), "é".to_string()]);
}

#[test]
fn set_internal_links_links_back_and_answers_old_links() {
    let mut x = entry_with_links("x", Some(strs(&["old"])));
    let mut others = vec![entry_with_links("b", Some(strs(&[]))), entry_with_links("a", Some(strs(&["q"])))];
    let old = x.set_internal_links(&mut others).unwrap().into_vec();
    assert_eq!(old.len(), 1);
    assert_eq!(old[0].local(), "old");
    assert_eq!(ids(&x), vec!["a".to_string(), "b".to_string()]);
    assert_eq!(ids(&others[0]), vec!["x".to_string()]);
    assert_eq!(ids(&others[1]), vec!["q".to_string(), "x".to_string()]);
}

#[test]
fn set_internal_links_stops_at_first_failure() {
    let mut x = entry_with_links("x", Some(strs(&["old"])));
    let bad = Entry::from_parts(StoreId::new_baseless("bad".to_string()).unwrap(), EntryHeader { imag: ImagSection::NotATable });
    let mut others = vec![entry_with_links("b", Some(strs(&[]))), bad, entry_with_links("c", Some(strs(&[])))];
    let err = x.set_internal_links(&mut others).unwrap_err();
    assert_eq!(err.kind, LinkErrorKind::EntryHeaderReadError);
    assert_eq!(ids(&x), vec!["old".to_string()]);
    assert_eq!(ids(&others[0]), vec!["x".to_string()]);
    assert_eq!(ids(&others[2]).len(), 0);
}

fn linked_store() -> Store {
    let mut store = Store::new("/s".to_string());
    let mut a = store.create("a".to_string()).unwrap();
    let mut b = store.create("b".to_string()).unwrap();
    let mut c = store.create("c".to_string()).unwrap();
    let _d = store.create("d".to_string()).unwrap();
    assert!(a.add_internal_link(&mut b).is_ok());
    assert!(a.add_internal_link(&mut c).is_ok());
    assert!(store.update(&a).is_ok());
    assert!(store.update(&b).is_ok());
    assert!(store.update(&c).is_ok());
    store
}

fn all_ids() -> LinkIter {
    LinkIter::new(
        ["a", "b", "c", "d"].iter().map(|s| StoreId::new_baseless(s.to_string()).unwrap()).collect(),
    )
}

#[test]
fn getter_gets_entries_and_stops_at_a_missing_one() {
    let store = linked_store();
    let ls = LinkIter::new(vec![
        StoreId::new_baseless("b".to_string()).unwrap(),
        StoreId::new_baseless("nope".to_string()).unwrap(),
        StoreId::new_baseless("a".to_string()).unwrap(),
    ]);
    let mut g = ls.into_getter(&store);
    let e = g.next().unwrap().unwrap();
    assert_eq!(e.get_location().local(), "b");
    assert!(g.next().is_none());
    assert_eq!(g.store().len(), 4);
}

#[test]
fn without_unlinked_skips_entries_without_links() {
    let store = linked_store();
    let mut f = all_ids().into_getter(&store).without_unlinked();
    let mut got = Vec::new();
    while let Some(r) = f.next() {
        got.push(r.unwrap().get_location().local().clone());
    }
    assert_eq!(got, vec!["a".to_string(), "b".to_string(), "c".to_string()]);
}

#[test]
fn link_count_bounds_filter() {
    let store = linked_store();
    // a has 2 links, b and c have 1, d has none.
    let mut f = all_ids().into_getter(&store).with_more_than_n_links(1);
    assert_eq!(f.next().unwrap().unwrap().get_location().local(), "b");
    assert_eq!(f.next().unwrap().unwrap().get_location().local(), "c");
    assert_eq!(f.next().unwrap().unwrap().get_location().local(), "d");
    assert!(f.next().is_none());

    let mut f = all_ids().into_getter(&store).with_less_than_n_links(1);
    assert_eq!(f.next().unwrap().unwrap().get_location().local(), "a");
    assert_eq!(f.next().unwrap().unwrap().get_location().local(), "b");
    assert_eq!(f.next().unwrap().unwrap().get_location().local(), "c");
    assert!(f.next().is_none());

    let mut f = all_ids().into_getter(&store).with_less_than_n_links(2);
    assert_eq!(f.next().unwrap().unwrap().get_location().local(), "a");
    assert!(f.next().is_none());

    let mut f = all_ids().into_getter(&store).with_more_than_n_links(0);
    assert_eq!(f.next().unwrap().unwrap().get_location().local(), "d");
    assert!(f.next().is_none());

    let mut f = all_ids().into_getter(&store).filtered_for_links(LinkCountBound::AtMost(1));
    assert_eq!(f.next().unwrap().unwrap().get_location().local(), "b");
    let mut f = all_ids().into_getter(&store).filtered_for_links(LinkCountBound::AtLeast(2));
    assert_eq!(f.next().unwrap().unwrap().get_location().local(), "a");
    assert!(f.next().is_none());
}

#[test]
fn delete_unlinked_deletes_entries_without_links() {
    let mut store = linked_store();
    store.create("e".to_string()).unwrap();
    let ls = LinkIter::new(
        ["d", "a", "e"].iter().map(|s| StoreId::new_baseless(s.to_string()).unwrap()).collect(),
    );
    let mut d = ls.into_getter(&store).delete_unlinked();
    let e = d.next(&mut store).unwrap().unwrap();
    assert_eq!(e.get_location().local(), "a");
    assert_eq!(store.len(), 4);
    assert!(d.next(&mut store).is_none());
    assert_eq!(store.len(), 3);
    assert!(store.get(&StoreId::new_baseless("d".to_string()).unwrap()).unwrap().is_none());
    assert!(store.get(&StoreId::new_baseless("e".to_string()).unwrap()).unwrap().is_none());
}

#[test]
fn filter_link_count_compares() {
    let e = entry_with_links("x", Some(strs(&["a", "b"])));
    assert!(FilterLinkCount::new(LinkCountOp::EQ, 2, |_: &entrylink::error::LinkError| false).filter(&e));
    assert!(!FilterLinkCount::new(LinkCountOp::LT, 2, |_: &entrylink::error::LinkError| true).filter(&e));
    assert!(FilterLinkCount::new(LinkCountOp::GT, 1, |_: &entrylink::error::LinkError| false).filter(&e));
    let bad = entry_with_links("y", Some(HeaderValue::Other));
    assert!(FilterLinkCount::new(LinkCountOp::EQ, 0, |_: &entrylink::error::LinkError| true).filter(&bad));
    assert!(!FilterLinkCount::new(LinkCountOp::EQ, 0, |_: &entrylink::error::LinkError| false).filter(&bad));
}

#[test]
fn store_ids() {
    assert_eq!(StoreId::new_baseless("/abs".to_string()).unwrap_err(), StoreErrorKind::StoreIdLocalPartAbsolute);
    let s = StoreId::new_baseless("x/y".to_string()).unwrap();
    assert_eq!(s.to_str(), "x/y");
    assert_eq!(s.clone().with_base("/".to_string()).to_str(), "/x/y");
    assert_eq!(s.clone().with_base("store".to_string()).to_str(), "store/x/y");
    assert_eq!(s.clone().with_base("store".to_string()).without_base(), s);
    assert!(s.same_as(&s.clone()));
    assert!(!s.same_as(&s.clone().with_base("b".to_string())));
}

#[test]
fn store_create_retrieve_delete() {
    let mut store = Store::new("/".to_string());
    assert_eq!(store.create("/x".to_string()).unwrap_err(), StoreErrorKind::StoreIdLocalPartAbsolute);
    let a = store.create("a".to_string()).unwrap();
    assert_eq!(a.get_location().to_str(), "/a");
    assert_eq!(store.create("a".to_string()).unwrap_err(), StoreErrorKind::EntryAlreadyExists);
    let again = store.retrieve("a".to_string()).unwrap();
    assert_eq!(again.get_location(), a.get_location());
    assert_eq!(store.len(), 1);
    assert!(store.delete(a.get_location()).is_ok());
    assert_eq!(store.delete(a.get_location()).unwrap_err(), StoreErrorKind::EntryNotFound);
    assert_eq!(store.update(&a).unwrap_err(), StoreErrorKind::EntryNotFound);
    assert_eq!(store.len(), 0);
}

#[test]
fn descriptions() {
    assert_eq!(LinkErrorKind::ExistingLinkTypeWrong.description(), "Existing link entry has wrong type");
    assert_eq!(LinkErrorKind::StoreIdError.description(), "StoreId handling error");
    assert_eq!(CounterErrorKind::HeaderTypeError.description(), "Header type error");
    assert_eq!(CounterErrorKind::HeaderFieldMissingError.description(), "Header field missing error");
}

fn id(s: &str) -> StoreId {
    StoreId::new_baseless(s.to_string()).unwrap()
}

#[test]
fn getter_turns_a_failed_read_into_a_store_read_error() {
    let mut store = linked_store();
    store.mark_unreadable("b".to_string(), StoreErrorKind::EntryNotFound);
    assert_eq!(store.get(&id("b")).unwrap_err(), StoreErrorKind::EntryNotFound);
    let mut g = LinkIter::new(vec![id("b"), id("a")]).into_getter(&store);
    let err = g.next().unwrap().unwrap_err();
    assert_eq!(err.kind, LinkErrorKind::StoreReadError);
    assert!(matches!(err.cause, Some(ErrorCause::Store(StoreErrorKind::EntryNotFound))));
    assert_eq!(g.next().unwrap().unwrap().get_location().local(), "a");
}

#[test]
fn filter_passes_on_a_failed_read() {
    let mut store = linked_store();
    store.mark_unreadable("a".to_string(), StoreErrorKind::HeaderPathTypeFailure);
    let mut f = all_ids().into_getter(&store).without_unlinked();
    let err = f.next().unwrap().unwrap_err();
    assert_eq!(err.kind, LinkErrorKind::StoreReadError);
    assert!(matches!(err.cause, Some(ErrorCause::Store(StoreErrorKind::HeaderPathTypeFailure))));
    assert_eq!(f.next().unwrap().unwrap().get_location().local(), "b");
}

#[test]
fn delete_unlinked_turns_a_failed_delete_into_a_store_write_error() {
    let mut store = linked_store();
    store.mark_undeletable("d".to_string(), StoreErrorKind::EntryNotFound);
    assert_eq!(store.delete(&id("d")).unwrap_err(), StoreErrorKind::EntryNotFound);
    let mut d = LinkIter::new(vec![id("d"), id("a")]).into_getter(&store).delete_unlinked();
    let err = d.next(&mut store).unwrap().unwrap_err();
    assert_eq!(err.kind, LinkErrorKind::StoreWriteError);
    assert!(matches!(err.cause, Some(ErrorCause::Store(StoreErrorKind::EntryNotFound))));
    assert_eq!(store.len(), 4);
    assert_eq!(d.next(&mut store).unwrap().unwrap().get_location().local(), "a");
}

#[test]
fn delete_unlinked_passes_on_a_failed_read() {
    let mut store = linked_store();
    store.mark_unreadable("d".to_string(), StoreErrorKind::HeaderKeyNotFound);
    let mut d = LinkIter::new(vec![id("d")]).into_getter(&store).delete_unlinked();
    let err = d.next(&mut store).unwrap().unwrap_err();
    assert_eq!(err.kind, LinkErrorKind::StoreReadError);
    assert_eq!(store.len(), 4);
    assert!(d.next(&mut store).is_none());
}

#[test]
fn retrieve_of_unreadable_entry_fails() {
    let mut store = linked_store();
    store.mark_unreadable("a".to_string(), StoreErrorKind::HeaderPathTypeFailure);
    assert_eq!(store.retrieve("a".to_string()).unwrap_err(), StoreErrorKind::HeaderPathTypeFailure);
    assert_eq!(store.retrieve("new".to_string()).unwrap().get_location().local(), "new");
}
