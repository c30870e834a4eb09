use antiknob::device::reports::slot_table_addresses;
use antiknob::firmware::DEVICE_LAYERS;

#[test]
fn the_addresses_cover_every_slot_once() {
    let addrs = slot_table_addresses(6, DEVICE_LAYERS);
    assert_eq!(addrs.len(), 18, "6 slots x 3 layers");
    let counters: Vec<u8> = addrs.iter().map(|(_, c)| *c).collect();
    assert_eq!(counters, (1..=18).collect::<Vec<u8>>());
    assert!(
        addrs.iter().all(|(g, _)| *g == 6),
        "the group parameter is the layer width, constant across the walk"
    );
}

#[test]
fn the_walk_scales_with_the_layer_width() {
    assert_eq!(slot_table_addresses(3, 3).len(), 9);
    assert_eq!(slot_table_addresses(18, 3).len(), 54);
}

#[test]
fn an_unaddressable_width_saturates_rather_than_wrapping() {
    let addrs = slot_table_addresses(200, 3);
    assert_eq!(addrs.len(), usize::from(u8::MAX));
}

#[test]
fn a_zero_width_walks_nothing() {
    assert!(slot_table_addresses(0, 3).is_empty());
    assert!(slot_table_addresses(6, 0).is_empty());
}
