use psp_engine::asset_handler;
use psp_engine::handler;
use psp_engine::sequential_handler;

#[test]
fn reseeding_handler_files_under_distinct_ids() {
    let mut h: handler::AssetHandler<&str> = handler::AssetHandler::new();
    let a = h.add(7, "first").0.unwrap();
    let b = h.add(7, "second").0.unwrap();
    assert_ne!(a, b);
    assert_eq!(h.query(a), Ok(&"first"));
    assert_eq!(h.query(b), Ok(&"second"));
    assert_eq!(h.assets.len(), 2);
}

#[test]
fn reseeding_handler_query_mut_changes_in_place() {
    let mut h: handler::AssetHandler<u32> = handler::AssetHandler::new();
    let a = h.add(1, 10).0.unwrap();
    *h.query_mut(a).unwrap() = 11;
    assert_eq!(h.query(a), Ok(&11));
    let missing = a.wrapping_add(1);
    if h.query(missing).is_err() {
        assert_eq!(h.query(missing), Err("Query failed to find asset."));
        assert!(h.query_mut(missing).is_err());
    }
}

#[test]
fn sequential_handler_takes_next_free_id() {
    let mut h: sequential_handler::AssetHandler<u8> = sequential_handler::AssetHandler::new();
    assert_eq!(h.add_from(5, 1), Ok(5));
    assert_eq!(h.add_from(5, 2), Ok(6));
    assert_eq!(h.add_from(4, 3), Ok(4));
    assert_eq!(h.add_from(4, 4), Ok(7));
    assert_eq!(h.query(6), Ok(&2));
    assert_eq!(h.query(8), Err("Query failed to find asset."));
}

#[test]
fn sequential_handler_runs_out_at_the_top() {
    let mut h: sequential_handler::AssetHandler<u8> = sequential_handler::AssetHandler::new();
    assert_eq!(h.add_from(u32::MAX, 1), Ok(u32::MAX));
    assert_eq!(h.add_from(u32::MAX, 2), Err("No free asset id left."));
    assert_eq!(h.query(u32::MAX), Ok(&1));
    let drawn = h.add(3, 9).unwrap();
    assert_eq!(h.query(drawn), Ok(&9));
}

#[test]
fn recording_handler_replaces_and_keeps_count() {
    let mut h: asset_handler::AssetHandler<u8> = asset_handler::AssetHandler::new();
    let a = h.add(42, "a.bmp", 1).unwrap();
    let b = h.add(42, "b.bmp", 2).unwrap();
    // The same seed draws the same id, and the later asset replaces the first.
    assert_eq!(a, b);
    assert_eq!(h.query(a), Ok(&2));
    assert_eq!(h.len(), 0);
    *h.query_mut(a).unwrap() = 3;
    assert_eq!(h.query(a), Ok(&3));
}

#[test]
fn reseeding_handler_try_insert_hands_back_on_collision() {
    let mut h: handler::AssetHandler<u8> = handler::AssetHandler::new();
    assert_eq!(h.try_insert(4, 1), Ok(()));
    assert_eq!(h.try_insert(4, 2), Err(2));
    assert_eq!(h.query(4), Ok(&1));
}
