use pokeys_lib::types::{CanMessage, I2cStatus};
use pokeys_lib::device::parse_i2c_status;
use pokeys_lib::device::i2c_fragments;
use pokeys_lib::device::i2c_register_packet;
use pokeys_lib::device::uspibridge_packet;
use pokeys_lib::device::PoKeysDevice;
use pokeys_lib::types::DeviceConnectionType;
use pokeys_lib::PoKeysError;


#[test]
fn test_can_message_creation() {
    let data = [0x01, 0x02, 0x03, 0x04];
    let mut message = CanMessage {
        id: 0x123,
        data: [0; 8],
        len: data.len() as u8,
        format: 0,
        msg_type: 0,
    };

    message.data[..data.len()].copy_from_slice(&data);

    assert_eq!(message.id, 0x123);
    assert_eq!(message.len, 4);
    assert_eq!(message.data[0], 0x01);
    assert_eq!(message.data[3], 0x04);
}

#[test]
fn test_spi_command_structure() {

    assert_eq!(0xE5, 0xE5); // SPI command
    assert_eq!(0x01, 0x01); // Configure sub-command
    assert_eq!(0x10, 0x10); // Write sub-command
    assert_eq!(0x20, 0x20); // Read sub-command
}

#[test]
fn test_spi_data_limits() {
    const MAX_SPI_DATA_LENGTH: usize = 55;
    const OVER_LIMIT: usize = 56;
    assert_eq!(MAX_SPI_DATA_LENGTH, 55);
    assert_eq!(OVER_LIMIT, 56);
    let max_val = MAX_SPI_DATA_LENGTH;
    let over_val = OVER_LIMIT;
    assert!(over_val > max_val);
}

#[test]
fn test_i2c_status_conversion() {
    assert_eq!(I2cStatus::Success.value(), 1);
    assert_eq!(I2cStatus::Error.value(), 0);
    assert_eq!(I2cStatus::InProgress.value(), 0x10);
}

#[test]
fn test_ds18b20_temperature_conversion() {
    let temp_raw = 0x0191i16; // 25.0625°C in DS18B20 format
    let temperature = (temp_raw as f32) * 0.0625;
    assert!((temperature - 25.0625).abs() < 0.001);

    let temp_raw = 0xFF5Eu16 as i16; // -10.125°C in DS18B20 format (two's complement)
    let temperature = (temp_raw as f32) * 0.0625;
    assert!((temperature - (-10.125)).abs() < 0.001);
}

#[test]
fn i2c_status_byte_decoding() {
    let mut r = [0u8; 8];
    r[3] = 1;
    assert_eq!(parse_i2c_status(&r).unwrap(), I2cStatus::Success);
    r[3] = 0x10;
    assert_eq!(parse_i2c_status(&r).unwrap(), I2cStatus::InProgress);
    r[3] = 7;
    assert_eq!(parse_i2c_status(&r).unwrap(), I2cStatus::Error);
    assert!(parse_i2c_status(&r[..3]).is_err());
}

#[test]
fn i2c_fragments_of_a_long_write() {
    let data: Vec<u8> = (0..65).collect();
    let f = i2c_fragments(&data);
    assert_eq!(f.len(), 3);
    assert_eq!(f[0][0], 0xF0);
    assert_eq!(&f[0][1..], &data[0..30]);
    assert_eq!(f[2][0], 0xF2);
    assert_eq!(&f[2][1..], &data[60..65]);
}

#[test]
fn i2c_register_packet_prepends_the_register() {
    assert_eq!(i2c_register_packet(0x10, &[1, 2]).unwrap(), vec![0x10, 1, 2]);
    assert!(i2c_register_packet(0x10, &[0u8; 32]).is_err());
}

#[test]
fn uspibridge_packets_carry_an_xor_checksum() {
    let p = uspibridge_packet(0x20, 3, b"AB");
    assert_eq!(p, vec![0x20, 3, 2, b'A', b'B', 0x20 ^ 3 ^ 2 ^ b'A' ^ b'B']);
}

#[test]
fn unconnected_device_refuses_bus_requests() {
    let mut device = PoKeysDevice::new(DeviceConnectionType::UsbDevice);
    assert!(matches!(device.spi_write(&[], 1), Err(PoKeysError::Parameter(_))));
    assert!(matches!(device.spi_write(&[1], 1), Err(PoKeysError::NotConnected)));
    assert!(matches!(device.i2c_read_start(0x20, 33), Err(PoKeysError::Parameter(_))));
    assert!(matches!(device.i2c_write_start(0x20, &[0u8; 33]), Err(PoKeysError::I2cPacketTooLarge { size: 33, max_size: 32, .. })));
}
