use cua_driver::cache::{AtspiNode, ElementCache};

fn node(idx: Option<usize>, key: u64) -> AtspiNode {
    AtspiNode {
        element_index: idx,
        role: "test".into(),
        name: None,
        value: None,
        description: None,
        actions: Vec::new(),
        element_key: key,
    }
}

/// The peak survives a tree collapse and is shared across the windows of a
/// process, so a dialog that was never snapshotted still inherits it.
#[test]
fn peak_element_count_survives_collapse_and_spans_windows() {
    let mut cache = ElementCache::new();
    assert_eq!(cache.peak_element_count(7), 0);

    let rich: Vec<AtspiNode> = (0..5).map(|i| node(Some(i), i as u64)).collect();
    cache.update(7, 100, &rich);
    assert_eq!(cache.peak_element_count(7), 5);
    assert_eq!(cache.element_count(7, 100), 5);

    // Modal up: the main window re-snapshots to a bare window node.
    cache.update(7, 100, &[node(None, 0)]);
    assert_eq!(cache.element_count(7, 100), 0, "live snapshot reflects the collapse");
    assert_eq!(cache.peak_element_count(7), 5, "peak must remember the populated tree");

    // The dialog window was never snapshotted; per-pid peak still applies.
    assert_eq!(cache.element_count(7, 200), 0);
    assert_eq!(cache.peak_element_count(7), 5);

    // Other pids are unaffected.
    assert_eq!(cache.peak_element_count(8), 0);
}

#[test]
fn element_keys_are_read_back_by_index() {
    let mut cache = ElementCache::default();
    cache.update(1, 5, &[node(Some(0), 11), node(None, 12), node(Some(1), 13)]);
    assert_eq!(cache.element_count(1, 5), 2);
    assert_eq!(cache.get_element_key(1, 5, 0), Some(11));
    assert_eq!(cache.get_element_key(1, 5, 1), Some(13));
    assert_eq!(cache.get_element_key(1, 5, 2), None);
    assert_eq!(cache.get_element_key(1, 6, 0), None);
    assert_eq!(cache.get_element_key(2, 5, 0), None);
}

#[test]
fn windows_with_wide_ids_stay_apart() {
    let mut cache = ElementCache::new();
    cache.update(1, 0, &[node(Some(0), 1)]);
    cache.update(0, u64::MAX, &[node(Some(0), 2)]);
    cache.update(u32::MAX, u64::MAX, &[node(Some(0), 3)]);
    cache.update(0, 1 << 32, &[node(Some(0), 4), node(Some(1), 5)]);
    assert_eq!(cache.get_element_key(1, 0, 0), Some(1));
    assert_eq!(cache.get_element_key(0, u64::MAX, 0), Some(2));
    assert_eq!(cache.get_element_key(u32::MAX, u64::MAX, 0), Some(3));
    assert_eq!(cache.get_element_key(0, 1 << 32, 1), Some(5));
    assert_eq!(cache.peak_element_count(0), 2);
    assert_eq!(cache.peak_element_count(1), 1);
}
