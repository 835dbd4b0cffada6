use houston::azur::index::{id_to_index, known_equip_hulls, ship_augment_indices, trim_hull_disallowed, ShipSlots};
use houston::azur::paging::{page_view, PAGE_SIZE};

fn names(n: usize) -> Vec<String> {
    (0..n).map(|i| format!("Item {i}")).collect()
}

#[test]
fn page_lists_names_and_buttons() {
    let v = page_view(&names(2), 0, PAGE_SIZE);
    assert_eq!(v.desc, "- Item 0\n- Item 1\n");
    assert!(!v.has_next);
    assert!(!v.back_enabled);
    assert!(!v.fwd_enabled);
    assert!(!v.show_buttons);
}

#[test]
fn page_cuts_at_page_size() {
    let v = page_view(&names(4), 2, 3);
    assert_eq!(v.desc, "- Item 0\n- Item 1\n- Item 2\n");
    assert!(v.has_next);
    assert!(v.back_enabled);
    assert!(v.fwd_enabled);
    assert!(v.show_buttons);
    let exact = page_view(&names(3), 1, 3);
    assert!(!exact.has_next);
    assert!(exact.show_buttons);
    let empty = page_view(&Vec::new(), 0, PAGE_SIZE);
    assert_eq!(empty.desc, "");
}

#[test]
fn ids_map_to_last_index() {
    let m = id_to_index(&vec![10, 20, 10, 30]);
    assert_eq!(m.len(), 3);
    assert_eq!(m[&10], 2);
    assert_eq!(m[&20], 1);
    assert_eq!(m[&30], 3);
    assert!(!m.contains_key(&40));
}

#[test]
fn augments_grouped_by_ship() {
    let m = ship_augment_indices(&vec![Some(5), None, Some(7), Some(5)]);
    assert_eq!(m.len(), 2);
    assert_eq!(m[&5], vec![0, 3]);
    assert_eq!(m[&7], vec![2]);
}

#[test]
fn hull_trim_keeps_hulls_that_can_equip() {
    let retrofit = ShipSlots { hull_type: 2, slots: vec![vec![9]], retrofits: vec![] };
    let ships = vec![
        ShipSlots { hull_type: 1, slots: vec![vec![3, 4], vec![4]], retrofits: vec![retrofit] },
        ShipSlots { hull_type: 5, slots: vec![vec![3]], retrofits: vec![] },
    ];
    let mut known = known_equip_hulls(&ships);
    known.sort();
    assert_eq!(known, vec![(3, 1), (3, 5), (4, 1), (9, 2)]);
    assert_eq!(trim_hull_disallowed(3, &vec![5, 2, 1, 7], &known), vec![5, 1]);
    assert_eq!(trim_hull_disallowed(9, &vec![1, 2], &known), vec![2]);
}
