use j1939_gateway::descriptor::{list_all, ConnectionDescriptor};
use j1939_gateway::rp1210_parsing::{
    list_devices_for_prod, parse_i16, split_at_commas, IniSection, Rp1210Device, Rp1210Product,
};

fn section(name: Option<&str>, props: &[(&str, &str)]) -> IniSection {
    IniSection {
        name: name.map(|n| n.as_bytes().to_vec()),
        properties: props
            .iter()
            .map(|(k, v)| (k.as_bytes().to_vec(), v.as_bytes().to_vec()))
            .collect(),
    }
}

#[test]
fn selects_j1939_devices() {
    let secs = vec![
        section(None, &[]),
        section(Some("VendorInformation"), &[("Name", "Acme"), ("TimeStampWeight", "1000")]),
        section(Some("ProtocolInformation1"), &[("ProtocolString", "J1939"), ("Devices", "1,3")]),
        section(Some("ProtocolInformation2"), &[("ProtocolString", "CAN"), ("Devices", "2")]),
        section(
            Some("DeviceInformation1"),
            &[("DeviceID", "1"), ("DeviceName", "USB"), ("DeviceDescription", "Acme USB")],
        ),
        section(Some("DeviceInformation2"), &[("DeviceID", "2"), ("DeviceName", "BT")]),
        section(Some("DeviceInformation3"), &[("DeviceID", "3")]),
    ];
    let (vendor, devices) = list_devices_for_prod(&secs);
    assert_eq!(vendor, b"Acme".to_vec());
    assert_eq!(devices.len(), 2);
    assert_eq!(devices[0].id, 1);
    assert_eq!(devices[0].name, b"USB".to_vec());
    assert_eq!(devices[0].description, b"Acme USB".to_vec());
    assert_eq!(devices[1].id, 3);
    assert_eq!(devices[1].name, b"Unknown".to_vec());
    assert_eq!(devices[1].description, b"Unknown".to_vec());
}

#[test]
fn no_vendor_and_unparsable_id() {
    let secs = vec![
        section(Some("ProtocolInformation"), &[("ProtocolString", "J1939"), ("Devices", "x")]),
        section(Some("DeviceInformation"), &[("DeviceID", "x")]),
    ];
    let (vendor, devices) = list_devices_for_prod(&secs);
    assert!(vendor.is_empty());
    assert_eq!(devices.len(), 1);
    assert_eq!(devices[0].id, -1);
}

#[test]
fn numbers() {
    assert_eq!(parse_i16(&b"12".to_vec()), Some(12));
    assert_eq!(parse_i16(&b"+5".to_vec()), Some(5));
    assert_eq!(parse_i16(&b"-32768".to_vec()), Some(-32768));
    assert_eq!(parse_i16(&b"32767".to_vec()), Some(32767));
    assert_eq!(parse_i16(&b"32768".to_vec()), None);
    assert_eq!(parse_i16(&b"".to_vec()), None);
    assert_eq!(parse_i16(&b"-".to_vec()), None);
    assert_eq!(parse_i16(&b"1a".to_vec()), None);
    assert_eq!(parse_i16(&b"999999".to_vec()), None);
}

#[test]
fn commas() {
    assert_eq!(split_at_commas(&b"1,2,,3".to_vec()), vec![b"1".to_vec(), b"2".to_vec(), vec![], b"3".to_vec()]);
    assert_eq!(split_at_commas(&vec![]), vec![Vec::<u8>::new()]);
}

#[test]
fn every_device_becomes_a_connection() {
    let products = vec![Rp1210Product {
        id: "ACME32".to_string(),
        description: "Acme".to_string(),
        devices: vec![
            Rp1210Device { id: 1, name: "USB".to_string(), description: "Acme USB".to_string() },
            Rp1210Device { id: 3, name: "BT".to_string(), description: "Acme BT".to_string() },
        ],
    }];
    let all = list_all(&products);
    assert_eq!(all.name, "RP1210");
    assert_eq!(all.devices.len(), 1);
    assert_eq!(all.devices[0].name, "Acme");
    let f = &all.devices[0].connections[1];
    assert_eq!(f.id, "ACME32");
    assert_eq!(f.device, 3);
    assert_eq!(f.connection_string, "J1939:Baud=Auto");
    assert_eq!(f.address, 0xF9);
    assert!(!f.app_packetize);
    assert_eq!(f.name(), "Acme BT");
    let d: ConnectionDescriptor = f.descriptor();
    assert_eq!(d.adapter, "ACME32");
    let c = d.connect();
    assert_eq!(c.source_address(), 0xF9);
    assert_eq!(c.cursor_count(), 0);
    assert!(!c.is_running());
}
