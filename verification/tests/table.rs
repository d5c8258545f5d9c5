use canvas_link::table::{LookupError, Resource, ResourceKind, ResourceTable};

#[test]
fn put_then_get_returns_the_resource() {
    let mut t = ResourceTable::new();
    let r = Resource { kind: ResourceKind::Surface, serial: 0 };
    assert_eq!(t.put(7, r), None);
    assert_eq!(t.get(7, ResourceKind::Surface), Ok(r));
}

#[test]
fn put_then_get_each_kind() {
    let mut t = ResourceTable::new();
    let c = Resource { kind: ResourceKind::Cursor, serial: 0 };
    let s = Resource { kind: ResourceKind::Surface, serial: 1 };
    let x = Resource { kind: ResourceKind::Texture, serial: 2 };
    t.put(1, c);
    t.put(2, s);
    t.put(3, x);
    assert_eq!(t.get(1, ResourceKind::Cursor), Ok(c));
    assert_eq!(t.get(2, ResourceKind::Surface), Ok(s));
    assert_eq!(t.get(3, ResourceKind::Texture), Ok(x));
}

#[test]
fn untouched_handle_is_not_found() {
    let t = ResourceTable::new();
    assert_eq!(t.get(7, ResourceKind::Surface), Err(LookupError::NotFound));
}

#[test]
fn wrong_kind_is_distinct_from_not_found() {
    let mut t = ResourceTable::new();
    t.put(7, Resource { kind: ResourceKind::Surface, serial: 0 });
    assert_eq!(t.get(7, ResourceKind::Texture), Err(LookupError::WrongKind));
    assert_eq!(t.get(7, ResourceKind::Cursor), Err(LookupError::WrongKind));
    assert_eq!(t.get(8, ResourceKind::Texture), Err(LookupError::NotFound));
}

#[test]
fn replace_releases_the_previous_resource_exactly_once() {
    // The instrumented stand-in: each resource carries a distinct serial,
    // and a "release" is the table handing a resource back from `put` or
    // `clear`. Replacing handle 7 must hand back the first resource
    // exactly once, and it must be gone from the table afterwards.
    let mut t = ResourceTable::new();
    let r1 = Resource { kind: ResourceKind::Surface, serial: 1 };
    let r2 = Resource { kind: ResourceKind::Texture, serial: 2 };
    let mut released: Vec<u64> = Vec::new();

    if let Some(prev) = t.put(7, r1) {
        released.push(prev.serial);
    }
    assert_eq!(released, Vec::<u64>::new());

    if let Some(prev) = t.put(7, r2) {
        released.push(prev.serial);
    }
    assert_eq!(released, vec![1]);

    // The replaced resource is no longer reachable: the handle now holds r2.
    assert_eq!(t.get(7, ResourceKind::Texture), Ok(r2));
    assert_eq!(t.get(7, ResourceKind::Surface), Err(LookupError::WrongKind));

    // Teardown releases the remaining resource exactly once, nothing twice.
    for (_, r) in t.clear() {
        released.push(r.serial);
    }
    released.sort();
    assert_eq!(released, vec![1, 2]);
    assert_eq!(t.get(7, ResourceKind::Texture), Err(LookupError::NotFound));
}

#[test]
fn clear_hands_back_every_entry_once() {
    let mut t = ResourceTable::new();
    t.put(1, Resource { kind: ResourceKind::Cursor, serial: 10 });
    t.put(2, Resource { kind: ResourceKind::Surface, serial: 11 });
    t.put(3, Resource { kind: ResourceKind::Texture, serial: 12 });
    let mut all = t.clear();
    all.sort_by_key(|e| e.0);
    let handles: Vec<u32> = all.iter().map(|e| e.0).collect();
    let serials: Vec<u64> = all.iter().map(|e| e.1.serial).collect();
    assert_eq!(handles, vec![1, 2, 3]);
    assert_eq!(serials, vec![10, 11, 12]);
    assert_eq!(t.get(1, ResourceKind::Cursor), Err(LookupError::NotFound));
}

#[test]
fn extreme_handles_work_like_any_other() {
    let mut t = ResourceTable::new();
    let r = Resource { kind: ResourceKind::Texture, serial: u64::MAX };
    assert_eq!(t.put(u32::MAX, r), None);
    assert_eq!(t.put(0, r), None);
    assert_eq!(t.get(u32::MAX, ResourceKind::Texture), Ok(r));
    assert_eq!(t.get(0, ResourceKind::Texture), Ok(r));
}

#[test]
fn replacing_a_source_leaves_a_derived_entry_alone() {
    let mut t = ResourceTable::new();
    let surface = Resource { kind: ResourceKind::Surface, serial: 0 };
    let derived = Resource { kind: ResourceKind::Texture, serial: 1 };
    let replacement = Resource { kind: ResourceKind::Surface, serial: 2 };
    t.put(7, surface);
    t.put(9, derived);
    t.put(7, replacement);
    assert_eq!(t.get(9, ResourceKind::Texture), Ok(derived));
}
