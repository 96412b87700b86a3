use pokeys_lib::communication::{CommunicationManager, Protocol};
use pokeys_lib::types::{DeviceConnectionType, REQUEST_BUFFER_SIZE, REQUEST_HEADER, RESPONSE_BUFFER_SIZE, RESPONSE_HEADER};
use std::time::Duration;

#[test]
fn test_checksum_calculation() {
    let data = [0xBB, 0x01, 0x02, 0x03, 0x04, 0x05, 0x06];
    let checksum = Protocol::calculate_checksum(&data);
    let expected = 0xBB + 0x01 + 0x02 + 0x03 + 0x04 + 0x05 + 0x06;
    assert_eq!(checksum, expected as u8);
}

#[test]
fn test_request_preparation() {
    let mut protocol = Protocol::new();
    let request = protocol.prepare_request(0x10, 0x20, 0x30, 0x40, 0x50, None);

    assert_eq!(request[0], REQUEST_HEADER);
    assert_eq!(request[1], 0x10);
    assert_eq!(request[2], 0x20);
    assert_eq!(request[3], 0x30);
    assert_eq!(request[4], 0x40);
    assert_eq!(request[5], 0x50);
    assert_eq!(request[6], 1);

    let expected_checksum = Protocol::calculate_checksum(&request);
    assert_eq!(request[7], expected_checksum);
}

#[test]
fn test_response_validation() {
    let protocol = Protocol::new();
    let mut response = [0u8; RESPONSE_BUFFER_SIZE];
    response[0] = RESPONSE_HEADER;
    response[6] = 1;
    response[7] = Protocol::calculate_checksum(&response);

    assert!(protocol.validate_response(&response, 1).is_ok());
    assert!(protocol.validate_response(&response, 2).is_err());

    response[7] = 0xFF;
    assert!(protocol.validate_response(&response, 1).is_err());
}

#[test]
fn test_reboot_request_format() {
    let mut protocol = Protocol::new();
    let request = protocol.prepare_request(0xF3, 0, 0, 0, 0, None);

    assert_eq!(request[0], REQUEST_HEADER);
    assert_eq!(request[1], 0xF3);
    assert_eq!(request[2], 0);
    assert_eq!(request[3], 0);
    assert_eq!(request[4], 0);
    assert_eq!(request[5], 0);
    assert_eq!(request[6], 1);
    assert_eq!(request[7], Protocol::calculate_checksum(&request));

    for i in 8..REQUEST_BUFFER_SIZE {
        assert_eq!(request[i], 0);
    }
}

#[test]
fn test_protocol_defaults() {
    let protocol = Protocol::new();
    assert_eq!(protocol.send_retries(), 3);
    assert_eq!(protocol.socket_timeout(), Duration::from_millis(1000));
}

#[test]
fn test_protocol_tunables_round_trip() {
    let mut protocol = Protocol::new();
    protocol.set_retries_and_timeout(1, 99, Duration::from_millis(50));
    assert_eq!(protocol.send_retries(), 1);
    assert_eq!(protocol.socket_timeout(), Duration::from_millis(50));
}

#[test]
fn test_communication_manager_tunables_round_trip() {
    let mut mgr = CommunicationManager::new(DeviceConnectionType::NetworkDevice);
    assert_eq!(mgr.send_retries(), 3);
    assert_eq!(mgr.socket_timeout(), Duration::from_millis(1000));

    mgr.set_retries_and_timeout(2, 0, Duration::from_millis(250));
    assert_eq!(mgr.send_retries(), 2);
    assert_eq!(mgr.socket_timeout(), Duration::from_millis(250));
}

#[test]
fn request_ids_wrap_after_255() {
    let mut protocol = Protocol::new();
    let mut last = 0u8;
    for _ in 0..256 {
        last = protocol.prepare_request(0x00, 0, 0, 0, 0, None)[6];
    }
    assert_eq!(last, 0);
    assert_eq!(protocol.prepare_request(0x00, 0, 0, 0, 0, None)[6], 1);
}

#[test]
fn response_with_wrong_header_is_refused() {
    let protocol = Protocol::new();
    let mut response = [0u8; RESPONSE_BUFFER_SIZE];
    response[0] = 0xAB;
    response[6] = 1;
    response[7] = Protocol::calculate_checksum(&response);
    assert!(protocol.validate_response(&response, 1).is_err());
}

use pokeys_lib::communication::{NetworkInterface, UsbHidInterface};
use pokeys_lib::error::{PoKeysError, Result};

fn reply_for(packet: &[u8]) -> [u8; RESPONSE_BUFFER_SIZE] {
    let mut r = [0u8; RESPONSE_BUFFER_SIZE];
    r[0] = RESPONSE_HEADER;
    r[1] = packet[1];
    r[6] = packet[6];
    r[7] = r[..7].iter().fold(0u8, |a, b| a.wrapping_add(*b));
    r
}

/// A USB transport that records each call; it answers the `answer_on`-th
/// write (counting from 1) with a valid response and stays silent otherwise.
struct RecordingUsb {
    writes: Vec<Vec<u8>>,
    timeouts: Vec<Duration>,
    answer_on: usize,
    pending: Option<[u8; RESPONSE_BUFFER_SIZE]>,
}

impl UsbHidInterface for RecordingUsb {
    fn write(&mut self, data: &[u8]) -> Result<usize> {
        self.writes.push(data.to_vec());
        if self.writes.len() == self.answer_on {
            self.pending = Some(reply_for(&data[1..]));
        }
        Ok(data.len())
    }

    fn read(&mut self, _buffer: &mut [u8]) -> Result<usize> {
        Ok(0)
    }

    fn read_timeout(&mut self, buffer: &mut [u8], timeout: Duration) -> Result<usize> {
        self.timeouts.push(timeout);
        match self.pending.take() {
            Some(r) => {
                buffer[..RESPONSE_BUFFER_SIZE].copy_from_slice(&r);
                Ok(RESPONSE_BUFFER_SIZE)
            }
            None => Ok(0),
        }
    }
}

/// A network transport that records each call and answers every send.
struct RecordingNet {
    sends: Vec<Vec<u8>>,
    plain_receives: usize,
    timed_receives: Vec<Duration>,
}

impl NetworkInterface for RecordingNet {
    fn send(&mut self, data: &[u8]) -> Result<usize> {
        self.sends.push(data.to_vec());
        Ok(data.len())
    }

    fn receive(&mut self, buffer: &mut [u8]) -> Result<usize> {
        self.plain_receives += 1;
        let r = reply_for(self.sends.last().unwrap());
        buffer[..RESPONSE_BUFFER_SIZE].copy_from_slice(&r);
        Ok(RESPONSE_BUFFER_SIZE)
    }

    fn receive_timeout(&mut self, buffer: &mut [u8], timeout: Duration) -> Result<usize> {
        self.timed_receives.push(timeout);
        let r = reply_for(self.sends.last().unwrap());
        buffer[..RESPONSE_BUFFER_SIZE].copy_from_slice(&r);
        Ok(RESPONSE_BUFFER_SIZE)
    }
}

#[test]
fn usb_request_writes_the_hid_packet_of_the_request() {
    let mut mgr = CommunicationManager::new(DeviceConnectionType::UsbDevice);
    let mut usb = RecordingUsb { writes: Vec::new(), timeouts: Vec::new(), answer_on: 2, pending: None };
    let resp = mgr.send_usb_request(&mut usb, 0x10, 1, 2, 3, 4).unwrap();
    assert_eq!(resp[6], 1);
    assert_eq!(usb.writes.len(), 2);
    let expected: Vec<u8> = {
        let mut p = vec![0u8; 65];
        p[1..8].copy_from_slice(&[REQUEST_HEADER, 0x10, 1, 2, 3, 4, 1]);
        p[8] = (0xBBu32 + 0x10 + 1 + 2 + 3 + 4 + 1) as u8;
        p
    };
    assert_eq!(usb.writes[0], expected);
    assert_eq!(usb.writes[1], expected);
    // 50 empty polls after the first write, one answered poll after the second
    assert_eq!(usb.timeouts.len(), 51);
    assert!(usb.timeouts.iter().all(|t| *t == Duration::from_millis(20)));
}

#[test]
fn usb_request_gives_up_after_the_retry_count() {
    let mut mgr = CommunicationManager::new(DeviceConnectionType::UsbDevice);
    mgr.set_retries_and_timeout(2, 0, Duration::from_millis(5));
    let mut usb = RecordingUsb { writes: Vec::new(), timeouts: Vec::new(), answer_on: 0, pending: None };
    let r = mgr.send_usb_request(&mut usb, 0x00, 0, 0, 0, 0);
    assert!(matches!(r, Err(PoKeysError::Transfer(ref m)) if m == "Failed to send USB request"));
    assert_eq!(usb.writes.len(), 2);
}

#[test]
fn usb_raw_request_writes_report_id_and_first_64_bytes() {
    let mut mgr = CommunicationManager::new(DeviceConnectionType::UsbDevice);
    let request = mgr.prepare_request_with_data(0xCA, 16, 0, 0, 0, Some(&[9, 8, 7]));
    let mut usb = RecordingUsb { writes: Vec::new(), timeouts: Vec::new(), answer_on: 1, pending: None };
    mgr.send_usb_request_raw(&mut usb, &request).unwrap();
    assert_eq!(usb.writes.len(), 1);
    assert_eq!(usb.writes[0][0], 0);
    assert_eq!(&usb.writes[0][1..], &request[..64]);
}

#[test]
fn network_request_sends_64_bytes_and_waits_the_socket_timeout() {
    let mut mgr = CommunicationManager::new(DeviceConnectionType::NetworkDevice);
    mgr.set_retries_and_timeout(3, 0, Duration::from_millis(250));
    let mut net = RecordingNet { sends: Vec::new(), plain_receives: 0, timed_receives: Vec::new() };
    let resp = mgr.send_network_request(&mut net, 0x00, 5, 0, 0, 0).unwrap();
    assert_eq!(resp[6], 1);
    assert_eq!(net.sends.len(), 1);
    assert_eq!(net.sends[0].len(), 64);
    assert_eq!(&net.sends[0][..7], &[REQUEST_HEADER, 0x00, 5, 0, 0, 0, 1]);
    assert_eq!(net.timed_receives, vec![Duration::from_millis(250)]);
    assert_eq!(net.plain_receives, 0);
}

#[test]
fn network_raw_request_reads_with_receive() {
    let mut mgr = CommunicationManager::new(DeviceConnectionType::NetworkDevice);
    let request = mgr.prepare_request_with_data(0xC0, 1, 0, 0, 0, Some(&[1, 2, 3]));
    let mut net = RecordingNet { sends: Vec::new(), plain_receives: 0, timed_receives: Vec::new() };
    mgr.send_network_request_raw(&mut net, &request).unwrap();
    assert_eq!(net.sends, vec![request[..64].to_vec()]);
    assert_eq!(net.plain_receives, 1);
    assert!(net.timed_receives.is_empty());
}

#[test]
fn multipart_request_writes_request_then_chunks_then_reads_once() {
    let mut mgr = CommunicationManager::new(DeviceConnectionType::UsbDevice);
    let data: Vec<u8> = (0..70u8).collect();
    let mut usb = RecordingUsb { writes: Vec::new(), timeouts: Vec::new(), answer_on: 1, pending: None };
    let resp = mgr.send_multipart_request(&mut usb, 0x20, &data).unwrap();
    assert_eq!(resp[6], 1);
    assert_eq!(usb.writes.len(), 3);
    assert_eq!(&usb.writes[0][1..8], &[REQUEST_HEADER, 0x20, 0, 0, 0, 0, 1]);
    let mut first = vec![0u8; 65];
    first[1..65].copy_from_slice(&data[..64]);
    assert_eq!(usb.writes[1], first);
    let mut second = vec![0u8; 65];
    second[1..7].copy_from_slice(&data[64..]);
    assert_eq!(usb.writes[2], second);
    assert_eq!(usb.timeouts, vec![Duration::from_millis(1000)]);
}
