use flipper_rpc::consts::{
    BLE_OVERFLOW_CHARACTERISTIC_UUID, BLE_RX_CHARACTERISTIC_UUID, BLE_TX_CHARACTERISTIC_UUID,
};
use flipper_rpc::error::FlipperError;
use flipper_rpc::transport::ble::{
    parse_overflow_value, BTLEState, BTLETransport, FlipperScanner,
};
use flipper_rpc::transport::{FlipperFrameReceiver, FlipperFrameSender, FlipperTransport};

fn ready_transport(uuids: &[u128]) -> BTLETransport {
    let mut t = BTLETransport::new();
    t.begin_connect();
    t.on_connected();
    t.on_services_discovered(&uuids.to_vec()).unwrap();
    t
}

const ALL_UUIDS: [u128; 4] = [
    0xdead_beef,
    BLE_RX_CHARACTERISTIC_UUID,
    BLE_TX_CHARACTERISTIC_UUID,
    BLE_OVERFLOW_CHARACTERISTIC_UUID,
];

#[test]
fn scanner_requires_an_adapter() {
    match FlipperScanner::new(0) {
        Err(FlipperError::AdapterUnavailable) => {}
        other => panic!("expected AdapterUnavailable, got {:?}", other),
    }
    assert_eq!(
        FlipperError::AdapterUnavailable.message(),
        "no radio adapter present"
    );
}

#[test]
fn scanner_selects_adapters_in_bounds() {
    let mut scanner = FlipperScanner::new(3).unwrap();
    assert_eq!(scanner.adapter_idx, 0);
    scanner.set_adapter(2).unwrap();
    assert_eq!(scanner.adapter_idx, 2);
    assert_eq!(scanner.set_adapter(3), Err(FlipperError::OutOfBounds));
    assert_eq!(scanner.adapter_idx, 2);
}

#[test]
fn scanner_finds_first_matching_name() {
    let scanner = FlipperScanner::new(1).unwrap();
    let names: Vec<Option<Vec<u8>>> = vec![
        None,
        Some(b"Some Headphones".to_vec()),
        Some(b"Flipper Ariel".to_vec()),
        Some(b"Flipper Bravo".to_vec()),
    ];
    assert_eq!(scanner.search_flipper_by_name(&names, b"Flipper "), Some(2));
    assert_eq!(scanner.search_flipper_by_name(&names, b"Nothing"), None);
    // An empty pattern matches the first named peripheral.
    assert_eq!(scanner.search_flipper_by_name(&names, b""), Some(1));
}

#[test]
fn init_binds_all_three_characteristics() {
    let t = ready_transport(&ALL_UUIDS);
    assert_eq!(t.state, BTLEState::Ready);
    let chars = t.chars.unwrap();
    assert_eq!(chars.rx, 1);
    assert_eq!(chars.tx, 2);
    assert_eq!(chars.ovf, 3);
}

#[test]
fn init_fails_when_a_characteristic_is_missing() {
    let mut t = BTLETransport::new();
    t.begin_connect();
    t.on_connected();
    let uuids = vec![BLE_RX_CHARACTERISTIC_UUID, BLE_TX_CHARACTERISTIC_UUID];
    assert_eq!(
        t.on_services_discovered(&uuids),
        Err(FlipperError::BTNoCharacteristics)
    );
    assert_eq!(t.state, BTLEState::DiscoveringServices);
    assert!(t.chars.is_none());
}

#[test]
fn frame_io_after_init() {
    let mut t = ready_transport(&ALL_UUIDS);
    let wire = t.write_frame(&[0x08, 0x02]).unwrap();
    assert_eq!(wire, vec![0x02, 0x08, 0x02]);

    // One notification can carry more than one frame; they drain one
    // read_frame call at a time.
    assert_eq!(
        t.read_frame(&[0x01, 0xAA, 0x02, 0xBB, 0xCC]).unwrap(),
        Some(vec![0xAA])
    );
    assert_eq!(t.read_frame(&[]).unwrap(), Some(vec![0xBB, 0xCC]));
    assert_eq!(t.read_frame(&[]).unwrap(), None);
}

#[test]
fn split_halves_carry_their_characteristics() {
    let t = ready_transport(&ALL_UUIDS);
    let (rx, tx) = t.split_stream();
    assert_eq!(rx.rx_characteristic, 1);
    assert_eq!(tx.tx_characteristic, 2);
    assert_eq!(tx.ovf_characteristic, 3);
}

#[test]
fn split_halves_frame_independently() {
    let t = ready_transport(&ALL_UUIDS);
    let (mut rx, mut tx) = t.split_stream();
    let w = tx.write_frame(&[0x01, 0x02]).unwrap();
    assert_eq!(w, vec![0x02, 0x01, 0x02]);
    assert_eq!(rx.read_frame(&[0x01]).unwrap(), None);
    assert_eq!(rx.read_frame(&[0x7F]).unwrap(), Some(vec![0x7F]));
}

#[test]
fn overflow_value_is_big_endian() {
    assert_eq!(parse_overflow_value(&[0x00, 0x00, 0x01, 0x00]), 256);
    assert_eq!(parse_overflow_value(&[0x00, 0x00, 0x00, 0x00]), 0);
    assert_eq!(parse_overflow_value(&[0xFF, 0xFF, 0xFF, 0xFF]), u32::MAX);
    assert_eq!(parse_overflow_value(&[0x12, 0x34, 0x56, 0x78]), 0x1234_5678);
}
