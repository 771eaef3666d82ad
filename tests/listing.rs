use zzk::listing::{
    hydrate, join_listings, plan_list, plan_list_trimmed, reroot, root_subtree_roots, HydrationCause, ListPlan,
    ListResult,
};

fn strings(v: &[&str]) -> Vec<String> {
    v.iter().map(|s| s.to_string()).collect()
}

#[test]
fn plan_for_direct_children() {
    match plan_list(&"/app".to_string(), false) {
        ListPlan::Children(p) => assert_eq!(p, "/app"),
        _ => panic!("expected a children fetch"),
    }
    match plan_list(&"/".to_string(), false) {
        ListPlan::Children(p) => assert_eq!(p, "/"),
        _ => panic!("expected a children fetch"),
    }
}

#[test]
fn plan_for_subtree() {
    match plan_list(&"/app".to_string(), true) {
        ListPlan::Subtree(p) => assert_eq!(p, "/app"),
        _ => panic!("expected a subtree fetch"),
    }
    match plan_list(&"//".to_string(), true) {
        ListPlan::Subtree(p) => assert_eq!(p, "//"),
        _ => panic!("expected a subtree fetch"),
    }
}

#[test]
fn plan_for_root_reroots_children() {
    match plan_list(&"/".to_string(), true) {
        ListPlan::EachRootChild(p) => assert_eq!(p, "/"),
        _ => panic!("expected the root special case"),
    }
    match plan_list(&"  / ".to_string(), true) {
        ListPlan::EachRootChild(p) => assert_eq!(p, "  / "),
        _ => panic!("expected the root special case"),
    }
}

#[test]
fn reroot_prefixes_slash() {
    assert_eq!(reroot(&"zookeeper".to_string()), "/zookeeper");
    assert_eq!(reroot(&String::new()), "/");
}

#[test]
fn root_children_become_absolute() {
    let r = root_subtree_roots(&strings(&["a", "zookeeper"]));
    assert_eq!(r, strings(&["/a", "/zookeeper"]));
    assert!(root_subtree_roots(&Vec::new()).is_empty());
}

#[test]
fn root_listing_joins_each_subtree() {
    // root has children "a" (with children x and y) and "b" (a leaf)
    let parts = vec![strings(&["/a", "/a/x", "/a/y"]), strings(&["/b"])];
    let joined = join_listings(&parts);
    assert_eq!(joined, strings(&["/a", "/a/x", "/a/y", "/b"]));
    for child in root_subtree_roots(&strings(&["a", "b"])) {
        assert!(joined.contains(&child));
    }
}

#[test]
fn join_of_nothing_is_empty() {
    assert!(join_listings(&Vec::new()).is_empty());
    assert!(join_listings(&vec![Vec::new(), Vec::new()]).is_empty());
}

#[test]
fn hydrate_keeps_order() {
    let keys = strings(&["/a", "/b"]);
    let values = vec![Some(b"one".to_vec()), Some("två".as_bytes().to_vec())];
    let rows = match hydrate(&keys, &values) {
        Ok(rows) => rows,
        Err(_) => panic!("expected rows"),
    };
    assert_eq!(rows.len(), 2);
    assert_eq!(rows[0].key, "/a");
    assert_eq!(rows[0].value, "one");
    assert_eq!(rows[1].key, "/b");
    assert_eq!(rows[1].value, "två");
}

#[test]
fn hydrate_empty_listing() {
    match hydrate(&Vec::new(), &Vec::new()) {
        Ok(rows) => assert!(rows.is_empty()),
        Err(_) => panic!("expected no rows"),
    }
}

#[test]
fn hydrate_reports_unreadable_path() {
    let keys = strings(&["/a", "/b", "/c"]);
    let values = vec![Some(b"ok".to_vec()), None, Some(vec![0xff])];
    match hydrate(&keys, &values) {
        Err(e) => {
            assert_eq!(e.path, "/b");
            assert_eq!(e.cause, HydrationCause::Unreadable);
        }
        Ok(_) => panic!("expected an error"),
    }
}

#[test]
fn hydrate_reports_value_not_text() {
    let keys = strings(&["/a", "/b"]);
    let values = vec![Some(vec![0xc3, 0x28]), None];
    match hydrate(&keys, &values) {
        Err(e) => {
            assert_eq!(e.path, "/a");
            assert_eq!(e.cause, HydrationCause::NotText);
        }
        Ok(_) => panic!("expected an error"),
    }
}

#[test]
fn list_result_holds_key() {
    let r = ListResult { key: "/a".to_string() };
    assert_eq!(r.key, "/a");
}

#[test]
fn reroot_of_bare_name_is_absolute() {
    let p = reroot(&"config".to_string());
    assert!(p.starts_with('/'));
    assert!(!p.ends_with('/'));
    assert!(!p.contains("//"));
}

#[test]
fn plan_from_trimmed_text() {
    match plan_list_trimmed(&" / ".to_string(), &"/".to_string(), true) {
        ListPlan::EachRootChild(p) => assert_eq!(p, " / "),
        _ => panic!("expected the root special case"),
    }
    match plan_list_trimmed(&"/a".to_string(), &"/a".to_string(), true) {
        ListPlan::Subtree(p) => assert_eq!(p, "/a"),
        _ => panic!("expected a subtree fetch"),
    }
    match plan_list_trimmed(&"/".to_string(), &"/".to_string(), false) {
        ListPlan::Children(p) => assert_eq!(p, "/"),
        _ => panic!("expected a children fetch"),
    }
}
