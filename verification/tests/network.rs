use pokeys_lib::network::{
    broadcast_address, create_discovery_packet, ip_to_string, network_address, parse_discovery_response, same_subnet,
    string_to_ip, NetworkDeviceConfig,
};


#[test]
fn test_ip_string_conversion() {
    let ip = [192, 168, 1, 100];
    let ip_str = ip_to_string(ip);
    assert_eq!(ip_str, "192.168.1.100");

    let parsed_ip = string_to_ip(&ip_str).unwrap();
    assert_eq!(parsed_ip, ip);
}

#[test]
fn test_invalid_ip_string() {
    assert!(string_to_ip("192.168.1").is_err());
    assert!(string_to_ip("192.168.1.256").is_err());
    assert!(string_to_ip("not.an.ip.address").is_err());
}

#[test]
fn test_subnet_calculations() {
    let ip1 = [192, 168, 1, 100];
    let ip2 = [192, 168, 1, 200];
    let ip3 = [192, 168, 2, 100];
    let subnet_mask = [255, 255, 255, 0];

    assert!(same_subnet(ip1, ip2, subnet_mask));
    assert!(!same_subnet(ip1, ip3, subnet_mask));

    let network = network_address(ip1, subnet_mask);
    assert_eq!(network, [192, 168, 1, 0]);

    let broadcast = broadcast_address(ip1, subnet_mask);
    assert_eq!(broadcast, [192, 168, 1, 255]);
}

#[test]
fn test_network_device_config() {
    let mut config = NetworkDeviceConfig::new();

    config.set_ip_address([192, 168, 1, 100]);
    assert_eq!(config.device_info.ip_address_setup, [192, 168, 1, 100]);

    config.set_dhcp(true);
    assert_eq!(config.device_info.dhcp, 1);

    config.set_dhcp(false);
    assert_eq!(config.device_info.dhcp, 0);

    config.set_tcp_timeout(2000);
    assert_eq!(config.device_info.tcp_timeout, 2000);
}

#[test]
fn test_network_options() {
    let mut config = NetworkDeviceConfig::new();

    config.set_network_options(true, false, false);
    assert_eq!(config.device_info.additional_network_options & 0x01, 0x01);
    assert_eq!(config.device_info.additional_network_options & 0x02, 0x00);

    config.set_network_options(false, true, true);
    assert_eq!(config.device_info.additional_network_options & 0x01, 0x00);
    assert_eq!(config.device_info.additional_network_options & 0x02, 0x02);
    assert_eq!(config.device_info.additional_network_options & 0x04, 0x04);
}

#[test]
fn test_discovery_packet_format() {
    let packet = create_discovery_packet();

    assert_eq!(packet.len(), 0, "PoKeys discovery packet must be empty");
}

#[test]
fn test_discovery_response_parsing_14_bytes() {

    let response = [
        0x01, // User ID
        0x12, 0x34, // Serial number (big-endian): 0x1234 = 4660
        0x02, 0x05, // Firmware version: 2.5
        192, 168, 1, 100,  // Device IP: 192.168.1.100
        0x01, // DHCP enabled
        192, 168, 1, 1, // Host IP: 192.168.1.1
    ];

    let sender_addr = Some([192, 168, 1, 100]);
    let device = parse_discovery_response(&response, sender_addr)
        .unwrap();

    assert_eq!(device.serial_number, 4660);
    assert_eq!(device.firmware_version_major, 2);
    assert_eq!(device.firmware_version_minor, 5);
    assert_eq!(device.firmware_revision, 5); // From data[4]
    assert_eq!(device.ip_address, [192, 168, 1, 100]);
    assert_eq!(device.dhcp, 1);
    assert_eq!(device.host_ip, [192, 168, 1, 1]);
    assert_eq!(device.hw_type, 0); // Not available in 14-byte format
}

#[test]
fn test_discovery_response_parsing_19_bytes() {

    let response = [
        0x02, // User ID
        0x00, 0x00, // Unused bytes
        0x03, 0x01, // Firmware version: 3.1
        192, 168, 1, 101,  // Device IP: 192.168.1.101
        0x00, // DHCP disabled
        192, 168, 1, 1, // Host IP: 192.168.1.1
        0x78, 0x56, 0x34, 0x12, // Serial number (little-endian): 0x12345678
        0x58, // Hardware type: 58 series
    ];

    let sender_addr = Some([192, 168, 1, 101]);
    let device = parse_discovery_response(&response, sender_addr)
        .unwrap();

    assert_eq!(device.serial_number, 0x12345678);
    assert_eq!(device.firmware_version_major, 3);
    assert_eq!(device.firmware_version_minor, 1);
    assert_eq!(device.firmware_revision, 1); // From data[4]
    assert_eq!(device.ip_address, [192, 168, 1, 101]);
    assert_eq!(device.dhcp, 0);
    assert_eq!(device.host_ip, [192, 168, 1, 1]);
    assert_eq!(device.hw_type, 0x58);
}

#[test]
fn test_discovery_response_invalid_length() {

    let short_response = [0x01, 0x02, 0x03]; // Too short
    let long_response = [0u8; 25]; // Too long
    let sender_addr = Some([192, 168, 1, 100]);

    assert!(parse_discovery_response(&short_response, sender_addr)
        .is_none());
    assert!(parse_discovery_response(&long_response, sender_addr)
        .is_none());
}

#[test]
fn ip_text_round_trips_for_edge_values() {
    for ip in [[0u8, 0, 0, 0], [255, 255, 255, 255], [10, 0, 9, 1]] {
        assert_eq!(string_to_ip(&ip_to_string(ip)).unwrap(), ip);
    }
    assert!(string_to_ip("1.2.3.4.5").is_err());
    assert!(string_to_ip("").is_err());
}

#[test]
fn network_and_broadcast_bound_the_subnet() {
    let ip = [10, 1, 2, 3];
    let mask = [255, 255, 0, 0];
    assert_eq!(network_address(ip, mask), [10, 1, 0, 0]);
    assert_eq!(broadcast_address(ip, mask), [10, 1, 255, 255]);
    assert!(same_subnet(ip, network_address(ip, mask), mask));
}

fn summary(serial_number: u32, last: u8) -> pokeys_lib::types::NetworkDeviceSummary {
    pokeys_lib::types::NetworkDeviceSummary {
        serial_number,
        ip_address: [192, 168, 1, last],
        host_ip: [0, 0, 0, 0],
        firmware_version_major: 4,
        firmware_version_minor: 1,
        firmware_revision: 0,
        user_id: 0,
        dhcp: 0,
        hw_type: 0,
        use_udp: 0,
    }
}

#[test]
fn discovered_devices_are_listed_once_per_serial() {
    let mut devices = Vec::new();
    assert!(pokeys_lib::network::add_discovered(&mut devices, summary(100, 1)));
    assert!(pokeys_lib::network::add_discovered(&mut devices, summary(200, 2)));
    assert!(!pokeys_lib::network::add_discovered(&mut devices, summary(100, 3)));
    assert_eq!(devices.len(), 2);
    assert_eq!(devices[0].serial_number, 100);
    assert_eq!(devices[0].ip_address, [192, 168, 1, 1]);
    assert_eq!(devices[1].serial_number, 200);
}
