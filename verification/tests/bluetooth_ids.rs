use comm_handler::adapters::bluetooth::uuid_from_u16;
use comm_handler::adapters::bluetooth::uuid_from_u32;
use comm_handler::adapters::bluetooth::BluetoothAdapterConfiguration;
use comm_handler::adapters::bluetooth::ServiceCharacteristic;

#[test]
fn test_uuid_from_u16() {
    assert_eq!(
        uuid_from_u16(0x2a3d),
        "00002a3d-0000-1000-8000-00805f9b34fb"
    );
}

#[test]
fn test_uuid_from_u32() {
    assert_eq!(
        uuid_from_u32(0x13370042),
        "13370042-0000-1000-8000-00805f9b34fb"
    );
}

#[test]
fn uuid_from_u16_low_digits() {
    assert_eq!(
        uuid_from_u16(0x000f),
        "0000000f-0000-1000-8000-00805f9b34fb"
    );
}

#[test]
fn uuid_from_u32_all_nibbles() {
    assert_eq!(
        uuid_from_u32(0x0123_89ef),
        "012389ef-0000-1000-8000-00805f9b34fb"
    );
}

fn sample_configuration() -> BluetoothAdapterConfiguration {
    BluetoothAdapterConfiguration::new(
        "AA:BB:CC:DD:EE:FF".to_string(),
        ServiceCharacteristic::new("1800".to_string(), "2a3d".to_string()),
        ServiceCharacteristic::new("1800".to_string(), "2a3e".to_string()),
    )
}

#[test]
fn find_peripheral_picks_first_matching_address() {
    let config = sample_configuration();
    let addresses = vec![
        "11:22:33:44:55:66".to_string(),
        "AA:BB:CC:DD:EE:FF".to_string(),
        "AA:BB:CC:DD:EE:FF".to_string(),
    ];
    assert_eq!(config.find_peripheral(&addresses), Some(1));
    assert_eq!(
        config.find_peripheral(&vec!["00:00:00:00:00:00".to_string()]),
        None
    );
    assert_eq!(config.find_peripheral(&Vec::new()), None);
}

#[test]
fn find_characteristic_matches_uuid_text() {
    let config = sample_configuration();
    let uuids = vec!["2a3c".to_string(), "2a3d".to_string(), "2a3e".to_string()];
    assert_eq!(
        config.find_characteristic(&uuids, config.read_characteristic()),
        Some(1)
    );
    assert_eq!(
        config.find_characteristic(&uuids, config.write_characteristic()),
        Some(2)
    );
    assert_eq!(
        config.find_characteristic(&Vec::new(), config.read_characteristic()),
        None
    );
}
