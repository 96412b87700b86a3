//! Device set-up: the pin and encoder lists of a device type, and the
//! device name.

use vstd::prelude::*;
use vstd::string::*;
use crate::communication::{Protocol, checksum_of, next_id, request_packet};
use crate::device::{DeviceField, PoKeysDevice};
use crate::encoders::{EncoderData, blank_encoder};
use crate::error::{PoKeysError, Result};
use crate::io::{PinData, blank_pin};
use crate::types::{DeviceConnectionType, DeviceInfo, millis};

verus! {

/// `n` blank pins.
pub open spec fn blank_pins(n: nat) -> Seq<PinData> {
    Seq::new(n, |i: int| blank_pin())
}

/// `n` blank encoders.
pub open spec fn blank_encoders(n: nat) -> Seq<EncoderData> {
    Seq::new(n, |i: int| blank_encoder())
}

fn new_pins(n: usize) -> (r: Vec<PinData>)
    ensures
        r@ == blank_pins(n as nat),
{
    let mut v: Vec<PinData> = Vec::new();
    let mut i: usize = 0;
    while i < n
        invariant
            i <= n,
            v@ == blank_pins(i as nat),
        decreases n - i,
    {
        v.push(PinData::new());
        assert(v@ =~= blank_pins((i + 1) as nat));
        i = i + 1;
    }
    v
}

fn new_encoders(n: usize) -> (r: Vec<EncoderData>)
    ensures
        r@ == blank_encoders(n as nat),
{
    let mut v: Vec<EncoderData> = Vec::new();
    let mut i: usize = 0;
    while i < n
        invariant
            i <= n,
            v@ == blank_encoders(i as nat),
        decreases n - i,
    {
        v.push(EncoderData::new());
        assert(v@ =~= blank_encoders((i + 1) as nat));
        i = i + 1;
    }
    v
}

/// The model file name of a device type name: the five types that have one,
/// with the PoKeys57E v1.1 sharing the PoKeys57E's.
pub open spec fn model_name_of(kind_name: Seq<char>) -> Option<Seq<char>> {
    if kind_name == "PoKeys56U"@ { Some("PoKeys56U"@) }
    else if kind_name == "PoKeys56E"@ { Some("PoKeys56E"@) }
    else if kind_name == "PoKeys57U"@ { Some("PoKeys57U"@) }
    else if kind_name == "PoKeys57E"@ || kind_name == "PoKeys57Ev1.1"@ { Some("PoKeys57E"@) }
    else if kind_name == "PoKeys57CNC"@ { Some("PoKeys57CNC"@) }
    else { None }
}

/// The device types with a model file, and its name: PoKeys56U, PoKeys56E,
/// PoKeys57U, PoKeys57E (also for the PoKeys57E v1.1) and PoKeys57CNC; no
/// other type has one.
pub proof fn lemma_model_names(kind_name: Seq<char>)
    ensures
        model_name_of("PoKeys56U"@) == Some("PoKeys56U"@),
        model_name_of("PoKeys56E"@) == Some("PoKeys56E"@),
        model_name_of("PoKeys57U"@) == Some("PoKeys57U"@),
        model_name_of("PoKeys57E"@) == Some("PoKeys57E"@),
        model_name_of("PoKeys57Ev1.1"@) == Some("PoKeys57E"@),
        model_name_of("PoKeys57CNC"@) == Some("PoKeys57CNC"@),
        !(kind_name == "PoKeys56U"@ || kind_name == "PoKeys56E"@ || kind_name == "PoKeys57U"@ || kind_name
            == "PoKeys57E"@ || kind_name == "PoKeys57Ev1.1"@ || kind_name == "PoKeys57CNC"@) ==> model_name_of(kind_name)
            is None,
{
    reveal_strlit("PoKeys56U");
    reveal_strlit("PoKeys56E");
    reveal_strlit("PoKeys57U");
    reveal_strlit("PoKeys57E");
    reveal_strlit("PoKeys57Ev1.1");
    reveal_strlit("PoKeys57CNC");
}

/// The model file name of a device type name, if it has one.
pub fn model_name_for_device_type(kind_name: &str) -> (r: Option<&'static str>)
    ensures
        match model_name_of(kind_name@) {
            Some(n) => r is Some && r->0@ == n,
            None => r is None,
        },
{
    if crate::text::str_equal(kind_name, "PoKeys56U") { Some("PoKeys56U") }
    else if crate::text::str_equal(kind_name, "PoKeys56E") { Some("PoKeys56E") }
    else if crate::text::str_equal(kind_name, "PoKeys57U") { Some("PoKeys57U") }
    else if crate::text::str_equal(kind_name, "PoKeys57E") || crate::text::str_equal(kind_name, "PoKeys57Ev1.1") {
        Some("PoKeys57E")
    } else if crate::text::str_equal(kind_name, "PoKeys57CNC") { Some("PoKeys57CNC") }
    else { None }
}

/// The 64-byte `0x06` request that writes the long device name: type
/// `0x06`, the write flag and the long-name flag, the request ID and the
/// checksum, then the name (up to 20 bytes) at bytes 35 to 54.
pub open spec fn device_name_request(name: Seq<u8>, id: u8) -> Seq<u8> {
    let head = seq![0xBBu8, 0x06, 0x01, 0x01, 0, 0, id];
    head + seq![checksum_of(head)] + Seq::new(27, |i: int| 0u8) + name + Seq::new((29 - name.len()) as nat, |i: int| 0u8)
}

fn name_request(name: &[u8], n: usize, id: u8) -> (r: [u8; 64])
    requires
        n <= 20,
        n <= name@.len(),
    ensures
        r@ == device_name_request(name@.take(n as int), id),
{
    let mut request = [0u8; 64];
    request[0] = 0xBB;
    request[1] = 0x06;
    request[2] = 0x01;
    request[3] = 0x01;
    request[6] = id;
    let ghost head = seq![0xBBu8, 0x06, 0x01, 0x01, 0, 0, id];
    assert(request@.take(7) =~= head);
    let checksum = Protocol::calculate_checksum(&request);
    assert(checksum_of(request@) == checksum_of(head)) by {
        assert(request@.take(7) =~= head.take(7));
    }
    request[7] = checksum;
    let mut i: usize = 0;
    while i < n
        invariant
            i <= n,
            n <= 20,
            n <= name@.len(),
            request@.len() == 64,
            request@.take(7) == head,
            request@[7] == checksum_of(head),
            forall|k: int| 8 <= k < 35 ==> request@[k] == 0u8,
            forall|k: int| 0 <= k < i ==> request@[35 + k] == name@[k],
            forall|k: int| 35 + i <= k < 64 ==> request@[k] == 0u8,
        decreases n - i,
    {
        request[35 + i] = name[i];
        assert(request@.take(7) =~= head);
        i = i + 1;
    }
    assert(request@ =~= device_name_request(name@.take(n as int), id));
    request
}

impl PoKeysDevice {
    /// Set up the pin and encoder lists for the device type: a PoKeys57CNC
    /// (type 32) gets its counts (55 pins, 6 PWM channels, 25 encoders, 3
    /// fast and 1 ultra-fast encoder, 8 analog inputs, pulse engine v2) and
    /// 10 PoExtBus outputs; any other device 55 pins and 25 encoders.
    pub fn initialize_device_structures(&mut self) -> (r: Result<()>)
        ensures
            r is Ok,
            final(self).pins@ == blank_pins(55),
            final(self).encoders@ == blank_encoders(25),
            old(self).device_data.device_type_id == 32 ==> {
                &&& final(self).info == (DeviceInfo { pin_count: 55, pwm_count: 6, encoders_count: 25, fast_encoders: 3,
                    ultra_fast_encoders: 1, analog_inputs: 8, pulse_engine_v2: 1, ..old(self).info })
                &&& final(self).po_ext_bus_data@ == Seq::new(10, |i: int| 0u8)
                &&& final(self).local_update(old(self), set![DeviceField::Info, DeviceField::Pins, DeviceField::Encoders,
                    DeviceField::PoExtBusData])
            },
            old(self).device_data.device_type_id != 32 ==> {
                &&& final(self).info == (DeviceInfo { pin_count: 55, ..old(self).info })
                &&& final(self).local_update(old(self), set![DeviceField::Info, DeviceField::Pins, DeviceField::Encoders])
            },
    {
        if self.device_data.device_type_id == 32 {
            self.initialize_pokeys57cnc()
        } else {
            self.initialize_generic_device()
        }
    }

    fn initialize_pokeys57cnc(&mut self) -> (r: Result<()>)
        ensures
            r is Ok,
            final(self).pins@ == blank_pins(55),
            final(self).encoders@ == blank_encoders(25),
            final(self).info == (DeviceInfo { pin_count: 55, pwm_count: 6, encoders_count: 25, fast_encoders: 3,
                ultra_fast_encoders: 1, analog_inputs: 8, pulse_engine_v2: 1, ..old(self).info }),
            final(self).po_ext_bus_data@ == Seq::new(10, |i: int| 0u8),
            final(self).local_update(old(self), set![DeviceField::Info, DeviceField::Pins, DeviceField::Encoders,
                DeviceField::PoExtBusData]),
    {
        self.info.pin_count = 55;
        self.info.pwm_count = 6;
        self.info.encoders_count = 25;
        self.info.fast_encoders = 3;
        self.info.ultra_fast_encoders = 1;
        self.info.analog_inputs = 8;
        self.info.pulse_engine_v2 = 1;
        self.pins = new_pins(55);
        self.encoders = new_encoders(25);
        self.po_ext_bus_data = crate::keyboard_matrix::zeros(10);
        Ok(())
    }

    fn initialize_generic_device(&mut self) -> (r: Result<()>)
        ensures
            r is Ok,
            final(self).pins@ == blank_pins(55),
            final(self).encoders@ == blank_encoders(25),
            final(self).info == (DeviceInfo { pin_count: 55, ..old(self).info }),
            final(self).local_update(old(self), set![DeviceField::Info, DeviceField::Pins, DeviceField::Encoders]),
    {
        self.info.pin_count = 55;
        self.pins = new_pins(55);
        self.encoders = new_encoders(25);
        Ok(())
    }

    /// Write the long device name (at most 20 bytes of it) with a `0x06`
    /// request built by hand (see [`device_name_request`]), sent raw over the
    /// transport (the USB reply is read but not checked, the network reply
    /// waited for up to 2 s and ignored), then save the configuration.
    pub fn set_device_name(&mut self, name: &str) -> (r: Result<()>)
        requires
            name.spec_bytes().len() > 20 ==> vstd::utf8::is_char_boundary(name.spec_bytes(), 20),
        ensures
            final(self).same_link(old(self)),
            final(self).same_data(old(self)),
            !old(self).connected() ==> r matches Err(PoKeysError::NotConnected),
            r is Ok ==> {
                let mid_id = next_id(old(self).request_id());
                &&& final(self).request_id() == next_id(mid_id)
                &&& final(self).log().len() == old(self).log().len() + 1
                &&& final(self).log().take(old(self).log().len() as int) == old(self).log()
                &&& final(self).log().last().0 == request_packet(0x50, 0xAA, 0x55, 0, 0, final(self).request_id(),
                    Seq::empty())
            },
    {
        let bytes = name.as_bytes();
        let n: usize = if bytes.len() > 20 { 20 } else { bytes.len() };
        let id = self.communication.get_next_request_id();
        let request = name_request(bytes, n, id);
        match self.connection_type {
            DeviceConnectionType::NetworkDevice => {
                match &mut self.network_interface {
                    Some(iface) => {
                        iface.send(&request)?;
                        let mut response = [0u8; 64];
                        let _ = iface.receive_timeout(&mut response, millis(2000));
                    },
                    None => { return Err(PoKeysError::NotConnected); },
                }
            },
            _ => {
                match &mut self.usb_interface {
                    Some(iface) => {
                        let mut hid = [0u8; 65];
                        let mut i: usize = 0;
                        while i < 64
                            invariant
                                i <= 64,
                            decreases 64 - i,
                        {
                            hid[i + 1] = request[i];
                            i = i + 1;
                        }
                        iface.write(&hid)?;
                        let mut response = [0u8; 65];
                        iface.read(&mut response)?;
                    },
                    None => { return Err(PoKeysError::NotConnected); },
                }
            },
        }
        let ghost mid = *self;
        let r = self.save_configuration();
        proof {
            if r is Ok {
                assert(self.log().take(old(self).log().len() as int) == old(self).log()) by {
                    assert(mid.log() == old(self).log());
                }
            }
        }
        r
    }
}

} // verus!
