use entrylink::internal::InternalLinker;
use entrylink::store::Store;

fn get_store() -> Store {
    Store::new("/".to_string())
}

fn count_links(e: &entrylink::entry::Entry) -> usize {
    e.get_internal_links().unwrap().into_vec().len()
}

#[test]
fn test_new_entry_no_links() {
    let mut store = get_store();
    let entry = store.create("test_new_entry_no_links".to_string()).unwrap();
    let links = entry.get_internal_links();
    assert!(links.is_ok());
    let links = links.unwrap();
    assert_eq!(links.into_vec().len(), 0);
}

#[test]
fn test_link_two_entries() {
    let mut store = get_store();
    let mut e1 = store.create("test_link_two_entries1".to_string()).unwrap();
    assert!(e1.get_internal_links().is_ok());

    let mut e2 = store.create("test_link_two_entries2".to_string()).unwrap();
    assert!(e2.get_internal_links().is_ok());

    {
        assert!(e1.add_internal_link(&mut e2).is_ok());

        let e1_links = e1.get_internal_links().unwrap().into_vec();
        let e2_links = e2.get_internal_links().unwrap().into_vec();

        assert_eq!(e1_links.len(), 1);
        assert_eq!(e2_links.len(), 1);

        assert!(e1_links
            .first()
            .map(|l| l.clone().with_base(store.path().clone()) == *e2.get_location())
            .unwrap_or(false));
        assert!(e2_links
            .first()
            .map(|l| l.clone().with_base(store.path().clone()) == *e1.get_location())
            .unwrap_or(false));
    }

    {
        assert!(e1.remove_internal_link(&mut e2).is_ok());

        let e2_links = e2.get_internal_links().unwrap().into_vec();
        assert_eq!(e2_links.len(), 0, "Expected [], got: {:?}", e2_links);

        let e1_links = e1.get_internal_links().unwrap().into_vec();
        assert_eq!(e1_links.len(), 0, "Expected [], got: {:?}", e1_links);
    }
}

#[test]
fn test_multiple_links() {
    let mut store = get_store();

    let mut e1 = store.retrieve("1".to_string()).unwrap();
    let mut e2 = store.retrieve("2".to_string()).unwrap();
    let mut e3 = store.retrieve("3".to_string()).unwrap();
    let mut e4 = store.retrieve("4".to_string()).unwrap();
    let mut e5 = store.retrieve("5".to_string()).unwrap();

    assert!(e1.add_internal_link(&mut e2).is_ok());

    assert_eq!(count_links(&e1), 1);
    assert_eq!(count_links(&e2), 1);
    assert_eq!(count_links(&e3), 0);
    assert_eq!(count_links(&e4), 0);
    assert_eq!(count_links(&e5), 0);

    assert!(e1.add_internal_link(&mut e3).is_ok());

    assert_eq!(count_links(&e1), 2);
    assert_eq!(count_links(&e2), 1);
    assert_eq!(count_links(&e3), 1);
    assert_eq!(count_links(&e4), 0);
    assert_eq!(count_links(&e5), 0);

    assert!(e1.add_internal_link(&mut e4).is_ok());

    assert_eq!(count_links(&e1), 3);
    assert_eq!(count_links(&e2), 1);
    assert_eq!(count_links(&e3), 1);
    assert_eq!(count_links(&e4), 1);
    assert_eq!(count_links(&e5), 0);

    assert!(e1.add_internal_link(&mut e5).is_ok());

    assert_eq!(count_links(&e1), 4);
    assert_eq!(count_links(&e2), 1);
    assert_eq!(count_links(&e3), 1);
    assert_eq!(count_links(&e4), 1);
    assert_eq!(count_links(&e5), 1);

    assert!(e5.remove_internal_link(&mut e1).is_ok());

    assert_eq!(count_links(&e1), 3);
    assert_eq!(count_links(&e2), 1);
    assert_eq!(count_links(&e3), 1);
    assert_eq!(count_links(&e4), 1);
    assert_eq!(count_links(&e5), 0);

    assert!(e4.remove_internal_link(&mut e1).is_ok());

    assert_eq!(count_links(&e1), 2);
    assert_eq!(count_links(&e2), 1);
    assert_eq!(count_links(&e3), 1);
    assert_eq!(count_links(&e4), 0);
    assert_eq!(count_links(&e5), 0);

    assert!(e3.remove_internal_link(&mut e1).is_ok());

    assert_eq!(count_links(&e1), 1);
    assert_eq!(count_links(&e2), 1);
    assert_eq!(count_links(&e3), 0);
    assert_eq!(count_links(&e4), 0);
    assert_eq!(count_links(&e5), 0);

    assert!(e2.remove_internal_link(&mut e1).is_ok());

    assert_eq!(count_links(&e1), 0);
    assert_eq!(count_links(&e2), 0);
    assert_eq!(count_links(&e3), 0);
    assert_eq!(count_links(&e4), 0);
    assert_eq!(count_links(&e5), 0);
}
