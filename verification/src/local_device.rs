//! The gateway's own BACnet Device object: answers Who-Is with I-Am and serves
//! ReadProperty and ReadPropertyMultiple for its device properties.
use vstd::prelude::*;
use vstd::utf8::encode_utf8;
use crate::bytes::{be32, be32_bytes, hi8, lo8, push_be16, push_be32, read_be32};
use crate::text::{decimal, extend_bytes, push_decimal, push_str, string_from_chars, str_chars};

verus! {

/// Vendor identifier (unregistered vendor).
pub const VENDOR_ID: u32 = 65535;

pub const APDU_UNCONFIRMED_REQUEST: u8 = 0x10;

pub const APDU_CONFIRMED_REQUEST: u8 = 0x00;

pub const APDU_COMPLEX_ACK: u8 = 0x30;

pub const APDU_ERROR: u8 = 0x50;

pub const SERVICE_WHO_IS: u8 = 8;

pub const SERVICE_I_AM: u8 = 0;

pub const SERVICE_READ_PROPERTY: u8 = 12;

pub const SERVICE_READ_PROPERTY_MULTIPLE: u8 = 14;

pub const OBJECT_TYPE_DEVICE: u32 = 8;

pub const SEGMENTATION_NOT_SUPPORTED: u32 = 3;

pub const MAX_APDU_LENGTH: u32 = 480;

pub const PROP_OBJECT_IDENTIFIER: u32 = 75;

pub const PROP_OBJECT_NAME: u32 = 77;

pub const PROP_OBJECT_TYPE: u32 = 79;

pub const PROP_SYSTEM_STATUS: u32 = 112;

pub const PROP_VENDOR_NAME: u32 = 121;

pub const PROP_VENDOR_IDENTIFIER: u32 = 120;

pub const PROP_MODEL_NAME: u32 = 70;

pub const PROP_FIRMWARE_REVISION: u32 = 44;

pub const PROP_APPLICATION_SOFTWARE_VERSION: u32 = 12;

pub const PROP_PROTOCOL_VERSION: u32 = 98;

pub const PROP_PROTOCOL_REVISION: u32 = 139;

pub const PROP_PROTOCOL_SERVICES_SUPPORTED: u32 = 97;

pub const PROP_PROTOCOL_OBJECT_TYPES_SUPPORTED: u32 = 96;

pub const PROP_MAX_APDU_LENGTH_ACCEPTED: u32 = 62;

pub const PROP_SEGMENTATION_SUPPORTED: u32 = 107;

pub const PROP_APDU_TIMEOUT: u32 = 11;

pub const PROP_NUMBER_OF_APDU_RETRIES: u32 = 73;

pub const PROP_DATABASE_REVISION: u32 = 155;

pub const PROP_OBJECT_LIST: u32 = 76;

pub const PROP_DESCRIPTION: u32 = 28;

pub const PROP_LOCATION: u32 = 58;

pub const PROP_MAX_INFO_FRAMES: u32 = 63;

pub const PROP_MAX_MASTER: u32 = 64;

pub const PROP_DEVICE_ADDRESS_BINDING: u32 = 30;

pub const ERROR_CLASS_OBJECT: u32 = 1;

pub const ERROR_CLASS_PROPERTY: u32 = 2;

pub const ERROR_CODE_UNKNOWN_OBJECT: u32 = 31;

pub const ERROR_CODE_UNKNOWN_PROPERTY: u32 = 32;

pub const STATUS_OPERATIONAL: u32 = 0;

/// Firmware and application software version reported by the device.
pub fn firmware_version() -> (r: &'static str)
    ensures
        r@ == "0.1.0"@,
{
    "0.1.0"
}

/// Local BACnet Device.
pub struct LocalDevice {
    pub device_instance: u32,
    pub device_name: String,
    pub vendor_name: String,
    pub model_name: String,
    pub firmware_revision: String,
    pub application_version: String,
    pub max_master: u8,
    pub max_info_frames: u8,
}

/// BACnet application-tagged unsigned integer.
pub open spec fn encode_unsigned_spec(value: u32) -> Seq<u8> {
    if value <= 0xFF {
        seq![0x21u8, value as u8]
    } else if value <= 0xFFFF {
        seq![0x22u8, hi8(value as u16), lo8(value as u16)]
    } else if value <= 0xFFFFFF {
        seq![0x23u8] + be32_bytes(value).subrange(1, 4)
    } else {
        seq![0x24u8] + be32_bytes(value)
    }
}

/// BACnet application-tagged character string (UTF-8) of `bytes`.
pub open spec fn encode_character_string_spec(bytes: Seq<u8>) -> Seq<u8> {
    let len = bytes.len() + 1;
    let header = if len < 5 {
        seq![(0x70 + len) as u8]
    } else if len < 254 {
        seq![0x75u8, len as u8]
    } else {
        seq![0x75u8, 254u8, hi8((len % 65536) as u16), lo8((len % 65536) as u16)]
    };
    header + seq![0u8] + bytes
}

/// BACnet context-tagged unsigned integer with tag number `tag`: the tag
/// byte holds the tag number, the context class bit 0x08 and the length.
pub open spec fn encode_context_unsigned_spec(tag: u8, value: u32) -> Seq<u8> {
    if value <= 0xFF {
        seq![(tag << 4u8) | 0x08u8 | 1u8, value as u8]
    } else if value <= 0xFFFF {
        seq![(tag << 4u8) | 0x08u8 | 2u8, hi8(value as u16), lo8(value as u16)]
    } else if value <= 0xFFFFFF {
        seq![(tag << 4u8) | 0x08u8 | 3u8] + be32_bytes(value).subrange(1, 4)
    } else {
        seq![(tag << 4u8) | 0x08u8 | 4u8] + be32_bytes(value)
    }
}

/// Encode a context-tagged unsigned integer.
pub fn encode_context_unsigned(tag: u8, value: u32) -> (r: Vec<u8>)
    ensures
        r@ == encode_context_unsigned_spec(tag, value),
{
    let mut result: Vec<u8> = Vec::new();
    if value <= 0xFF {
        result.push((tag << 4u8) | 0x08u8 | 1u8);
        result.push(value as u8);
    } else if value <= 0xFFFF {
        result.push((tag << 4u8) | 0x08u8 | 2u8);
        push_be16(&mut result, value as u16);
    } else if value <= 0xFFFFFF {
        result.push((tag << 4u8) | 0x08u8 | 3u8);
        result.push(((value / 65536) % 256) as u8);
        result.push(((value / 256) % 256) as u8);
        result.push((value % 256) as u8);
    } else {
        result.push((tag << 4u8) | 0x08u8 | 4u8);
        push_be32(&mut result, value);
    }
    assert(result@ =~= encode_context_unsigned_spec(tag, value));
    result
}

/// Who-Is APDU for the instance range `low..=high`: the limits as context
/// tags 0 and 1.
pub open spec fn who_is_range_apdu(low: u32, high: u32) -> Seq<u8> {
    seq![APDU_UNCONFIRMED_REQUEST, SERVICE_WHO_IS] + encode_context_unsigned_spec(0, low)
        + encode_context_unsigned_spec(1, high)
}

/// I-Am APDU of a device with the given instance.
pub open spec fn i_am_spec(instance: u32) -> Seq<u8> {
    seq![APDU_UNCONFIRMED_REQUEST, SERVICE_I_AM, 0xC4u8] + be32_bytes(
        (8u32 << 22u32) | instance,
    ) + seq![0x22u8, 0x01u8, 0xE0u8, 0x91u8, 3u8, 0x22u8, 0xFFu8, 0xFFu8]
}

/// Error APDU.
pub open spec fn error_response_spec(invoke_id: u8, service: u8, class: u32, code: u32) -> Seq<u8> {
    seq![APDU_ERROR, invoke_id, service, 0x91u8, class as u8, 0x91u8, code as u8]
}

/// I-Am-Router-To-Network NPDU for `networks`.
pub open spec fn i_am_router_spec(networks: Seq<u16>) -> Seq<u8>
    decreases networks.len(),
{
    if networks.len() == 0 {
        seq![0x01u8, 0x80u8, 0x01u8]
    } else {
        i_am_router_spec(networks.drop_last()) + seq![
            hi8(networks.last()),
            lo8(networks.last()),
        ]
    }
}

impl LocalDevice {
    /// A device with the given instance, max master 127 and one info frame.
    pub fn new(device_instance: u32) -> (r: LocalDevice)
        ensures
            r.device_instance == device_instance,
            r.device_name@ == "BACman Gateway "@ + decimal(device_instance as nat),
            r.vendor_name@ == "Madlogix"@,
            r.model_name@ == "BACman"@,
            r.firmware_revision@ == "0.1.0"@,
            r.application_version@ == "0.1.0"@,
            r.max_master == 127,
            r.max_info_frames == 1,
    {
        Self::new_with_mstp(device_instance, 127, 1)
    }

    /// A device with the given instance and MS/TP parameters.
    pub fn new_with_mstp(device_instance: u32, max_master: u8, max_info_frames: u8) -> (r:
        LocalDevice)
        ensures
            r.device_instance == device_instance,
            r.device_name@ == "BACman Gateway "@ + decimal(device_instance as nat),
            r.vendor_name@ == "Madlogix"@,
            r.model_name@ == "BACman"@,
            r.firmware_revision@ == "0.1.0"@,
            r.application_version@ == "0.1.0"@,
            r.max_master == max_master,
            r.max_info_frames == max_info_frames,
    {
        let mut name: Vec<char> = Vec::new();
        push_str(&mut name, "BACman Gateway ");
        push_decimal(&mut name, device_instance as u64);
        LocalDevice {
            device_instance,
            device_name: string_from_chars(&name),
            vendor_name: string_from_chars(&str_chars("Madlogix")),
            model_name: string_from_chars(&str_chars("BACman")),
            firmware_revision: string_from_chars(&str_chars(firmware_version())),
            application_version: string_from_chars(&str_chars(firmware_version())),
            max_master,
            max_info_frames,
        }
    }

    /// Encode a character string with its application tag.
    pub fn encode_character_string(&self, s: &str) -> (r: Vec<u8>)
        ensures
            r@ == encode_character_string_spec(encode_utf8(s@)),
    {
        let bytes = s.as_bytes();
        let n = bytes.len();
        let mut result: Vec<u8> = Vec::new();
        if n < 4 {
            result.push(0x70u8 + (n as u8) + 1);
        } else if n < 253 {
            result.push(0x75);
            result.push((n as u8) + 1);
        } else {
            result.push(0x75);
            result.push(254);
            let m: u16 = (n % 65536) as u16;
            let t: u16 = if m == 65535 {
                0
            } else {
                m + 1
            };
            assert(t == ((n + 1) % 65536) as u16);
            push_be16(&mut result, t);
        }
        result.push(0);
        extend_bytes(&mut result, bytes);
        assert(result@ =~= encode_character_string_spec(encode_utf8(s@)));
        result
    }

    /// Encode an unsigned integer with its application tag.
    pub fn encode_unsigned(&self, value: u32) -> (r: Vec<u8>)
        ensures
            r@ == encode_unsigned_spec(value),
    {
        let mut v: Vec<u8> = Vec::new();
        if value <= 0xFF {
            v.push(0x21);
            v.push(value as u8);
        } else if value <= 0xFFFF {
            v.push(0x22);
            push_be16(&mut v, value as u16);
        } else if value <= 0xFFFFFF {
            v.push(0x23);
            v.push(((value / 65536) % 256) as u8);
            v.push(((value / 256) % 256) as u8);
            v.push((value % 256) as u8);
        } else {
            v.push(0x24);
            push_be32(&mut v, value);
        }
        assert(v@ =~= encode_unsigned_spec(value));
        v
    }

    /// I-Am APDU announcing this device.
    pub fn build_i_am(&self) -> (r: Vec<u8>)
        ensures
            r@ == i_am_spec(self.device_instance),
    {
        let mut apdu: Vec<u8> = Vec::new();
        apdu.push(APDU_UNCONFIRMED_REQUEST);
        apdu.push(SERVICE_I_AM);
        apdu.push(0xC4);
        let object_id: u32 = (8u32 << 22u32) | self.device_instance;
        push_be32(&mut apdu, object_id);
        apdu.push(0x22);
        push_be16(&mut apdu, MAX_APDU_LENGTH as u16);
        apdu.push(0x91);
        apdu.push(SEGMENTATION_NOT_SUPPORTED as u8);
        apdu.push(0x22);
        push_be16(&mut apdu, VENDOR_ID as u16);
        assert(apdu@ =~= i_am_spec(self.device_instance));
        apdu
    }

    /// I-Am-Router-To-Network NPDU listing `networks`.
    pub fn build_i_am_router_to_network(networks: &[u16]) -> (r: Vec<u8>)
        ensures
            r@ == i_am_router_spec(networks@),
    {
        let mut npdu: Vec<u8> = Vec::new();
        npdu.push(0x01);
        npdu.push(0x80);
        npdu.push(0x01);
        let mut i: usize = 0;
        assert(networks@.take(0) =~= Seq::<u16>::empty());
        while i < networks.len()
            invariant
                i <= networks@.len(),
                npdu@ == i_am_router_spec(networks@.take(i as int)),
            decreases networks@.len() - i,
        {
            let net = networks[i];
            npdu.push(crate::bytes::high_byte(net));
            npdu.push(crate::bytes::low_byte(net));
            assert(networks@.take(i + 1).drop_last() =~= networks@.take(i as int));
            i = i + 1;
        }
        assert(networks@.take(i as int) =~= networks@);
        npdu
    }

    /// Error APDU for a confirmed service.
    pub fn build_error_response(&self, invoke_id: u8, service: u8, error_class: u32, error_code: u32) -> (r: Option<(Vec<u8>, bool)>)
        ensures
            r matches Some((v, b)) && v@ == error_response_spec(invoke_id, service, error_class, error_code) && !b,
    {
        let mut apdu: Vec<u8> = Vec::new();
        apdu.push(APDU_ERROR);
        apdu.push(invoke_id);
        apdu.push(service);
        apdu.push(0x91);
        apdu.push(error_class as u8);
        apdu.push(0x91);
        apdu.push(error_code as u8);
        assert(apdu@ =~= error_response_spec(invoke_id, service, error_class, error_code));
        Some((apdu, false))
    }

    /// Who-Is request APDU without range.
    pub fn build_who_is() -> (r: Vec<u8>)
        ensures
            r@ == seq![APDU_UNCONFIRMED_REQUEST, SERVICE_WHO_IS],
    {
        let v = vec![APDU_UNCONFIRMED_REQUEST, SERVICE_WHO_IS];
        assert(v@ =~= seq![APDU_UNCONFIRMED_REQUEST, SERVICE_WHO_IS]);
        v
    }

    /// Who-Is request APDU for the instance range `low_limit..=high_limit`.
    pub fn build_who_is_range(low_limit: u32, high_limit: u32) -> (r: Vec<u8>)
        ensures
            r@ == who_is_range_apdu(low_limit, high_limit),
    {
        let mut apdu = vec![APDU_UNCONFIRMED_REQUEST, SERVICE_WHO_IS];
        let lo = encode_context_unsigned(0, low_limit);
        extend_bytes(&mut apdu, lo.as_slice());
        let hi = encode_context_unsigned(1, high_limit);
        extend_bytes(&mut apdu, hi.as_slice());
        apdu
    }
}

/// Bytes of a property identifier with context tag `small_tag` (one byte) or
/// `large_tag` (two bytes, the low 16 bits).
pub open spec fn property_id_spec(property_id: u32, small_tag: u8, large_tag: u8) -> Seq<u8> {
    if property_id <= 0xFF {
        seq![small_tag, property_id as u8]
    } else {
        seq![large_tag, hi8((property_id % 65536) as u16), lo8((property_id % 65536) as u16)]
    }
}

/// Value of a device property as encoded in ReadProperty (`for_rpm` false) or
/// ReadPropertyMultiple (`for_rpm` true) answers; `None` for unknown properties.
pub open spec fn property_value_spec(d: LocalDevice, object_id: u32, property_id: u32, for_rpm: bool) -> Option<Seq<u8>> {
    if property_id == PROP_OBJECT_IDENTIFIER || property_id == PROP_OBJECT_LIST {
        Some(seq![0xC4u8] + be32_bytes(object_id))
    } else if property_id == PROP_OBJECT_NAME {
        Some(encode_character_string_spec(encode_utf8(d.device_name@)))
    } else if property_id == PROP_OBJECT_TYPE {
        Some(seq![0x91u8, 8u8])
    } else if property_id == PROP_SYSTEM_STATUS {
        Some(seq![0x91u8, 0u8])
    } else if property_id == PROP_VENDOR_NAME {
        Some(encode_character_string_spec(encode_utf8(d.vendor_name@)))
    } else if property_id == PROP_VENDOR_IDENTIFIER {
        Some(encode_unsigned_spec(VENDOR_ID))
    } else if property_id == PROP_MODEL_NAME {
        Some(encode_character_string_spec(encode_utf8(d.model_name@)))
    } else if property_id == PROP_FIRMWARE_REVISION {
        Some(encode_character_string_spec(encode_utf8(d.firmware_revision@)))
    } else if property_id == PROP_APPLICATION_SOFTWARE_VERSION {
        Some(encode_character_string_spec(encode_utf8(d.application_version@)))
    } else if property_id == PROP_PROTOCOL_VERSION || property_id == PROP_DATABASE_REVISION {
        Some(seq![0x21u8, 1u8])
    } else if property_id == PROP_PROTOCOL_REVISION {
        Some(seq![0x21u8, 14u8])
    } else if property_id == PROP_PROTOCOL_SERVICES_SUPPORTED {
        if for_rpm {
            Some(seq![0x82u8, 0x07u8, 0x00u8, 0u8, 0x0Au8, 0u8, 0x20u8, 0x40u8, 0u8])
        } else {
            Some(seq![0x85u8, 0x07u8, 0x00u8, 0u8, 0x08u8, 0u8, 0x20u8, 0x40u8, 0u8])
        }
    } else if property_id == PROP_PROTOCOL_OBJECT_TYPES_SUPPORTED {
        if for_rpm {
            Some(seq![0x82u8, 0x08u8, 0x00u8, 0u8, 0x80u8, 0u8, 0u8, 0u8, 0u8, 0u8])
        } else {
            Some(seq![0x85u8, 0x08u8, 0x00u8, 0u8, 0x80u8, 0u8, 0u8, 0u8, 0u8, 0u8])
        }
    } else if property_id == PROP_MAX_APDU_LENGTH_ACCEPTED {
        Some(encode_unsigned_spec(MAX_APDU_LENGTH))
    } else if property_id == PROP_SEGMENTATION_SUPPORTED {
        Some(seq![0x91u8, 3u8])
    } else if property_id == PROP_APDU_TIMEOUT {
        Some(encode_unsigned_spec(3000))
    } else if property_id == PROP_NUMBER_OF_APDU_RETRIES {
        Some(seq![0x21u8, 3u8])
    } else if property_id == PROP_DESCRIPTION {
        Some(encode_character_string_spec(encode_utf8("BACnet MS/TP to IP Gateway"@)))
    } else if property_id == PROP_LOCATION {
        Some(encode_character_string_spec(encode_utf8(""@)))
    } else if property_id == PROP_MAX_INFO_FRAMES {
        Some(seq![0x21u8, d.max_info_frames])
    } else if property_id == PROP_MAX_MASTER {
        Some(seq![0x21u8, d.max_master])
    } else if property_id == PROP_DEVICE_ADDRESS_BINDING {
        Some(Seq::empty())
    } else {
        None
    }
}

/// ReadProperty answer for `property_id` of `object_id`: a Complex-ACK, or an
/// unknown-property Error.
pub open spec fn read_property_response_spec(d: LocalDevice, invoke_id: u8, object_id: u32, property_id: u32) -> Seq<u8> {
    match property_value_spec(d, object_id, property_id, false) {
        Some(v) => seq![APDU_COMPLEX_ACK, invoke_id, SERVICE_READ_PROPERTY, 0x0Cu8] + be32_bytes(
            object_id,
        ) + property_id_spec(property_id, 0x19, 0x1A) + seq![0x3Eu8] + v + seq![0x3Fu8],
        None => error_response_spec(
            invoke_id,
            SERVICE_READ_PROPERTY,
            ERROR_CLASS_PROPERTY,
            ERROR_CODE_UNKNOWN_PROPERTY,
        ),
    }
}

fn push_property_id(v: &mut Vec<u8>, property_id: u32, small_tag: u8, large_tag: u8)
    ensures
        final(v)@ == old(v)@ + property_id_spec(property_id, small_tag, large_tag),
{
    if property_id <= 0xFF {
        v.push(small_tag);
        v.push(property_id as u8);
    } else {
        v.push(large_tag);
        push_be16(v, (property_id % 65536) as u16);
    }
    assert(final(v)@ =~= old(v)@ + property_id_spec(property_id, small_tag, large_tag));
}

impl LocalDevice {
    fn property_value(&self, object_id: u32, property_id: u32, for_rpm: bool) -> (r: Option<Vec<u8>>)
        ensures
            match r {
                Some(v) => property_value_spec(*self, object_id, property_id, for_rpm) == Some(v@),
                None => property_value_spec(*self, object_id, property_id, for_rpm) is None,
            },
    {
        if property_id == PROP_OBJECT_IDENTIFIER || property_id == PROP_OBJECT_LIST {
            let mut v = vec![0xC4u8];
            push_be32(&mut v, object_id);
            assert(v@ =~= seq![0xC4u8] + be32_bytes(object_id));
            Some(v)
        } else if property_id == PROP_OBJECT_NAME {
            Some(self.encode_character_string(self.device_name.as_str()))
        } else if property_id == PROP_OBJECT_TYPE {
            Some({
                let v = vec![0x91u8, 8u8];
                assert(v@ =~= seq![0x91u8, 8u8]);
                v
            })
        } else if property_id == PROP_SYSTEM_STATUS {
            Some({
                let v = vec![0x91u8, 0u8];
                assert(v@ =~= seq![0x91u8, 0u8]);
                v
            })
        } else if property_id == PROP_VENDOR_NAME {
            Some(self.encode_character_string(self.vendor_name.as_str()))
        } else if property_id == PROP_VENDOR_IDENTIFIER {
            Some(self.encode_unsigned(VENDOR_ID))
        } else if property_id == PROP_MODEL_NAME {
            Some(self.encode_character_string(self.model_name.as_str()))
        } else if property_id == PROP_FIRMWARE_REVISION {
            Some(self.encode_character_string(self.firmware_revision.as_str()))
        } else if property_id == PROP_APPLICATION_SOFTWARE_VERSION {
            Some(self.encode_character_string(self.application_version.as_str()))
        } else if property_id == PROP_PROTOCOL_VERSION || property_id == PROP_DATABASE_REVISION {
            Some({
                let v = vec![0x21u8, 1u8];
                assert(v@ =~= seq![0x21u8, 1u8]);
                v
            })
        } else if property_id == PROP_PROTOCOL_REVISION {
            Some({
                let v = vec![0x21u8, 14u8];
                assert(v@ =~= seq![0x21u8, 14u8]);
                v
            })
        } else if property_id == PROP_PROTOCOL_SERVICES_SUPPORTED {
            let mut bits: Vec<u8> = vec![0u8, 0u8, 0u8, 0u8, 0u8, 0u8];
            bits.set(1, bits[1] | 0x08);
            if for_rpm {
                bits.set(1, bits[1] | 0x02);
            }
            bits.set(3, bits[3] | 0x20);
            bits.set(4, bits[4] | 0x40);
            let mut v = if for_rpm {
                vec![0x82u8, 0x07u8, 0x00u8]
            } else {
                vec![0x85u8, 0x07u8, 0x00u8]
            };
            assert(0u8 | 0x08u8 == 0x08u8) by (bit_vector);
            assert(0x08u8 | 0x02u8 == 0x0Au8) by (bit_vector);
            assert(0u8 | 0x20u8 == 0x20u8) by (bit_vector);
            assert(0u8 | 0x40u8 == 0x40u8) by (bit_vector);
            extend_bytes(&mut v, bits.as_slice());
            if for_rpm {
                assert(v@ =~= seq![0x82u8, 0x07u8, 0x00u8, 0u8, 0x0Au8, 0u8, 0x20u8, 0x40u8, 0u8]);
            } else {
                assert(v@ =~= seq![0x85u8, 0x07u8, 0x00u8, 0u8, 0x08u8, 0u8, 0x20u8, 0x40u8, 0u8]);
            }
            Some(v)
        } else if property_id == PROP_PROTOCOL_OBJECT_TYPES_SUPPORTED {
            let mut bits: Vec<u8> = vec![0u8, 0u8, 0u8, 0u8, 0u8, 0u8, 0u8];
            bits.set(1, bits[1] | 0x80);
            assert(0u8 | 0x80u8 == 0x80u8) by (bit_vector);
            let mut v = if for_rpm {
                vec![0x82u8, 0x08u8, 0x00u8]
            } else {
                vec![0x85u8, 0x08u8, 0x00u8]
            };
            extend_bytes(&mut v, bits.as_slice());
            if for_rpm {
                assert(v@ =~= seq![0x82u8, 0x08u8, 0x00u8, 0u8, 0x80u8, 0u8, 0u8, 0u8, 0u8, 0u8]);
            } else {
                assert(v@ =~= seq![0x85u8, 0x08u8, 0x00u8, 0u8, 0x80u8, 0u8, 0u8, 0u8, 0u8, 0u8]);
            }
            Some(v)
        } else if property_id == PROP_MAX_APDU_LENGTH_ACCEPTED {
            Some(self.encode_unsigned(MAX_APDU_LENGTH))
        } else if property_id == PROP_SEGMENTATION_SUPPORTED {
            Some({
                let v = vec![0x91u8, SEGMENTATION_NOT_SUPPORTED as u8];
                assert(v@ =~= seq![0x91u8, 3u8]);
                v
            })
        } else if property_id == PROP_APDU_TIMEOUT {
            Some(self.encode_unsigned(3000))
        } else if property_id == PROP_NUMBER_OF_APDU_RETRIES {
            Some({
                let v = vec![0x21u8, 3u8];
                assert(v@ =~= seq![0x21u8, 3u8]);
                v
            })
        } else if property_id == PROP_DESCRIPTION {
            Some(self.encode_character_string("BACnet MS/TP to IP Gateway"))
        } else if property_id == PROP_LOCATION {
            Some(self.encode_character_string(""))
        } else if property_id == PROP_MAX_INFO_FRAMES {
            Some({
                let v = vec![0x21u8, self.max_info_frames];
                assert(v@ =~= seq![0x21u8, self.max_info_frames]);
                v
            })
        } else if property_id == PROP_MAX_MASTER {
            Some({
                let v = vec![0x21u8, self.max_master];
                assert(v@ =~= seq![0x21u8, self.max_master]);
                v
            })
        } else if property_id == PROP_DEVICE_ADDRESS_BINDING {
            Some({
                let v: Vec<u8> = Vec::new();
                assert(v@ =~= Seq::<u8>::empty());
                v
            })
        } else {
            None
        }
    }

    /// Encoded value of a device property as given in ReadPropertyMultiple
    /// answers; `None` for unknown properties.
    pub fn get_property_value(&self, object_id: u32, property_id: u32) -> (r: Option<Vec<u8>>)
        ensures
            match r {
                Some(v) => property_value_spec(*self, object_id, property_id, true) == Some(v@),
                None => property_value_spec(*self, object_id, property_id, true) is None,
            },
    {
        self.property_value(object_id, property_id, true)
    }

    /// ReadProperty answer for one property of `object_id`.
    pub fn build_read_property_response(&self, invoke_id: u8, object_id: u32, property_id: u32) -> (r: Option<(Vec<u8>, bool)>)
        ensures
            r matches Some((v, b)) && v@ == read_property_response_spec(
                *self,
                invoke_id,
                object_id,
                property_id,
            ) && !b,
    {
        let value = self.property_value(object_id, property_id, false);
        match value {
            None => self.build_error_response(
                invoke_id,
                SERVICE_READ_PROPERTY,
                ERROR_CLASS_PROPERTY,
                ERROR_CODE_UNKNOWN_PROPERTY,
            ),
            Some(value_encoded) => {
                let mut apdu: Vec<u8> = Vec::new();
                apdu.push(APDU_COMPLEX_ACK);
                apdu.push(invoke_id);
                apdu.push(SERVICE_READ_PROPERTY);
                apdu.push(0x0C);
                push_be32(&mut apdu, object_id);
                push_property_id(&mut apdu, property_id, 0x19, 0x1A);
                apdu.push(0x3E);
                extend_bytes(&mut apdu, value_encoded.as_slice());
                apdu.push(0x3F);
                assert(apdu@ =~= read_property_response_spec(*self, invoke_id, object_id, property_id));
                Some((apdu, false))
            },
        }
    }
}

/// The value of a big-endian unsigned field of 1..=4 bytes at `p`.
pub open spec fn unsigned_field(d: Seq<u8>, p: int, length: int) -> Option<u32> {
    if length == 1 {
        Some(d[p] as u32)
    } else if length == 2 {
        Some(((d[p] as u32) * 256 + (d[p + 1] as u32)) as u32)
    } else if length == 3 {
        Some(((d[p] as u32) * 65536 + (d[p + 1] as u32) * 256 + (d[p + 2] as u32)) as u32)
    } else if length == 4 {
        Some(be32(d[p], d[p + 1], d[p + 2], d[p + 3]))
    } else {
        None
    }
}

/// A context-tagged unsigned integer with tag `tag` at `pos`: its value and the
/// number of bytes it takes.
pub open spec fn decode_context_unsigned_spec(d: Seq<u8>, pos: int, tag: u8) -> Option<(u32, int)> {
    if pos < 0 || pos >= d.len() {
        None
    } else {
        let t = d[pos];
        if t & 0x08u8 == 0 {
            None
        } else if (t >> 4u8) & 0x0Fu8 != tag {
            None
        } else {
            let ext = (t & 0x07u8) == 5 && pos + 1 < d.len();
            let length: int = if ext {
                d[pos + 1] as int
            } else {
                (t & 0x07u8) as int
            };
            let consumed: int = if ext {
                2
            } else {
                1
            };
            if pos + consumed + length > d.len() {
                None
            } else {
                match unsigned_field(d, pos + consumed, length) {
                    Some(v) => Some((v, consumed + length)),
                    None => None,
                }
            }
        }
    }
}

/// The instance range of a Who-Is request's service data.
pub open spec fn who_is_range_spec(data: Seq<u8>) -> (Option<u32>, Option<u32>) {
    let low = if 0 < data.len() {
        decode_context_unsigned_spec(data, 0, 0)
    } else {
        None
    };
    let pos: int = match low {
        Some((_, c)) => c,
        None => 0,
    };
    let high = if pos < data.len() {
        decode_context_unsigned_spec(data, pos, 1)
    } else {
        None
    };
    (
        match low {
            Some((v, _)) => Some(v),
            None => None,
        },
        match high {
            Some((v, _)) => Some(v),
            None => None,
        },
    )
}

/// Whether `instance` lies in the Who-Is range (absent limits are open).
pub open spec fn in_who_is_range(instance: u32, low: Option<u32>, high: Option<u32>) -> bool {
    (match low {
        Some(l) => instance >= l,
        None => true,
    }) && (match high {
        Some(h) => instance <= h,
        None => true,
    })
}

/// The answer to a Who-Is with service data `data`: a broadcast I-Am when the
/// device instance is in range.
pub open spec fn who_is_answer_spec(d: LocalDevice, data: Seq<u8>) -> Option<(Seq<u8>, bool)> {
    let range = if data.len() == 0 {
        (None, None)
    } else {
        who_is_range_spec(data)
    };
    if in_who_is_range(d.device_instance, range.0, range.1) {
        Some((i_am_spec(d.device_instance), true))
    } else {
        None
    }
}

/// The answer to a ReadProperty request with service data `data`.
pub open spec fn read_property_answer_spec(d: LocalDevice, invoke_id: u8, data: Seq<u8>) -> Option<Seq<u8>> {
    let unknown_object = error_response_spec(
        invoke_id,
        SERVICE_READ_PROPERTY,
        ERROR_CLASS_OBJECT,
        ERROR_CODE_UNKNOWN_OBJECT,
    );
    if data.len() == 0 || data[0] != 0x0C {
        Some(unknown_object)
    } else if data.len() < 5 {
        None
    } else {
        let oid = be32(data[1], data[2], data[3], data[4]);
        if oid / 0x400000 != OBJECT_TYPE_DEVICE || oid % 0x400000 != d.device_instance {
            Some(unknown_object)
        } else if data.len() <= 5 {
            None
        } else {
            let t = data[5];
            let length = (t & 0x07u8) as int;
            if t & 0x08u8 == 0 || (t >> 4u8) & 0x0Fu8 != 1 {
                None
            } else if 6 + length > data.len() {
                None
            } else {
                match unsigned_field(data, 6, length) {
                    Some(prop) => Some(read_property_response_spec(d, invoke_id, oid, prop)),
                    None => None,
                }
            }
        }
    }
}

impl LocalDevice {
    /// Decode a context-tagged unsigned integer with tag `expected_tag` at `pos`;
    /// returns the value and the number of bytes it takes.
    pub fn decode_context_unsigned(&self, data: &[u8], pos: usize, expected_tag: u8) -> (r: Option<(u32, usize)>)
        ensures
            match r {
                Some((v, c)) => decode_context_unsigned_spec(data@, pos as int, expected_tag)
                    == Some((v, c as int)),
                None => decode_context_unsigned_spec(data@, pos as int, expected_tag) is None,
            },
    {
        if pos >= data.len() {
            return None;
        }
        let tag_byte = data[pos];
        if (tag_byte & 0x08) == 0 {
            return None;
        }
        let tag_number = (tag_byte >> 4u8) & 0x0F;
        if tag_number != expected_tag {
            return None;
        }
        let mut length: usize = (tag_byte & 0x07) as usize;
        let mut consumed: usize = 1;
        if length == 5 && pos + 1 < data.len() {
            length = data[pos + 1] as usize;
            consumed = 2;
        }
        if length > data.len() - (pos + consumed) {
            return None;
        }
        let p = pos + consumed;
        let value: u32 = if length == 1 {
            data[p] as u32
        } else if length == 2 {
            (data[p] as u32) * 256 + (data[p + 1] as u32)
        } else if length == 3 {
            (data[p] as u32) * 65536 + (data[p + 1] as u32) * 256 + (data[p + 2] as u32)
        } else if length == 4 {
            read_be32(data[p], data[p + 1], data[p + 2], data[p + 3])
        } else {
            return None;
        };
        Some((value, consumed + length))
    }

    /// Parse the optional low (tag 0) and high (tag 1) limits of a Who-Is.
    pub fn parse_who_is_range(&self, data: &[u8]) -> (r: (Option<u32>, Option<u32>))
        ensures
            r == who_is_range_spec(data@),
    {
        let mut pos: usize = 0;
        let mut low_limit: Option<u32> = None;
        let mut high_limit: Option<u32> = None;
        if pos < data.len() {
            if let Some((value, consumed)) = self.decode_context_unsigned(data, pos, 0) {
                low_limit = Some(value);
                pos = pos + consumed;
            }
        }
        if pos < data.len() {
            if let Some((value, _consumed)) = self.decode_context_unsigned(data, pos, 1) {
                high_limit = Some(value);
            }
        }
        (low_limit, high_limit)
    }

    /// Answer a Who-Is with service data `data`.
    pub fn handle_who_is(&self, data: &[u8]) -> (r: Option<(Vec<u8>, bool)>)
        ensures
            match r {
                Some((v, b)) => who_is_answer_spec(*self, data@) == Some((v@, b)),
                None => who_is_answer_spec(*self, data@) is None,
            },
    {
        let (low_limit, high_limit) = if data.len() == 0 {
            (None, None)
        } else {
            self.parse_who_is_range(data)
        };
        let matches = match (low_limit, high_limit) {
            (None, None) => true,
            (Some(low), Some(high)) => self.device_instance >= low && self.device_instance <= high,
            (Some(low), None) => self.device_instance >= low,
            (None, Some(high)) => self.device_instance <= high,
        };
        if matches {
            let iam = self.build_i_am();
            Some((iam, true))
        } else {
            None
        }
    }

    /// Answer a ReadProperty request with service data `data`.
    pub fn handle_read_property(&self, invoke_id: u8, data: &[u8]) -> (r: Option<(Vec<u8>, bool)>)
        ensures
            match r {
                Some((v, b)) => read_property_answer_spec(*self, invoke_id, data@) == Some(v@)
                    && !b,
                None => read_property_answer_spec(*self, invoke_id, data@) is None,
            },
    {
        if data.len() == 0 || data[0] != 0x0C {
            return self.build_error_response(
                invoke_id,
                SERVICE_READ_PROPERTY,
                ERROR_CLASS_OBJECT,
                ERROR_CODE_UNKNOWN_OBJECT,
            );
        }
        if data.len() < 5 {
            return None;
        }
        let object_id = read_be32(data[1], data[2], data[3], data[4]);
        if object_id / 0x400000 != OBJECT_TYPE_DEVICE || object_id % 0x400000
            != self.device_instance {
            return self.build_error_response(
                invoke_id,
                SERVICE_READ_PROPERTY,
                ERROR_CLASS_OBJECT,
                ERROR_CODE_UNKNOWN_OBJECT,
            );
        }
        if data.len() <= 5 {
            return None;
        }
        let tag_byte = data[5];
        let tag_num = (tag_byte >> 4u8) & 0x0F;
        let is_context = (tag_byte & 0x08) != 0;
        let length = (tag_byte & 0x07) as usize;
        if !is_context || tag_num != 1 {
            return None;
        }
        if 6 + length > data.len() {
            return None;
        }
        let property_id: u32 = if length == 1 {
            data[6] as u32
        } else if length == 2 {
            (data[6] as u32) * 256 + (data[7] as u32)
        } else if length == 3 {
            (data[6] as u32) * 65536 + (data[7] as u32) * 256 + (data[8] as u32)
        } else if length == 4 {
            read_be32(data[6], data[7], data[8], data[9])
        } else {
            return None;
        };
        self.build_read_property_response(invoke_id, object_id, property_id)
    }
}

/// Index of the next byte 0x0C at or after `pos`, or the end of `d`.
pub open spec fn skip_to_object(d: Seq<u8>, pos: int) -> int
    decreases d.len() - pos,
{
    if pos >= d.len() || d[pos] == 0x0Cu8 {
        pos
    } else {
        skip_to_object(d, pos + 1)
    }
}

/// The result bytes for one property of a ReadPropertyMultiple answer.
pub open spec fn rpm_value_part(d: LocalDevice, object_id: u32, property_id: u32) -> Seq<u8> {
    match property_value_spec(d, object_id, property_id, true) {
        Some(v) => seq![0x4Eu8] + v + seq![0x4Fu8],
        None => seq![0x5Eu8, 0x91u8, 2u8, 0x91u8, 32u8, 0x5Fu8],
    }
}

/// Property references of one object of a ReadPropertyMultiple request, read
/// from `pos` up to the closing tag: where reading stopped, and `acc` with the
/// results appended.
pub open spec fn rpm_props(d: LocalDevice, data: Seq<u8>, pos: int, object_id: u32, acc: Seq<u8>) -> (int, Seq<u8>)
    decreases data.len() - pos,
{
    if pos < 0 || pos >= data.len() || data[pos] == 0x1Fu8 {
        (pos, acc)
    } else {
        let t = data[pos];
        let length = (t & 0x07u8) as int;
        if t & 0x08u8 == 0 || (t >> 4u8) & 0x0Fu8 != 0 {
            rpm_props(d, data, pos + 1, object_id, acc)
        } else if pos + 1 + length > data.len() {
            (pos + 1, acc)
        } else {
            match unsigned_field(data, pos + 1, length) {
                None => rpm_props(d, data, pos + 1 + length, object_id, acc),
                Some(prop) => {
                    let p2 = pos + 1 + length;
                    let p3 = if p2 < data.len() && (data[p2] & 0xF8u8) == 0x18u8 {
                        if p2 + 1 + (data[p2] & 0x07u8) as int >= data.len() {
                            data.len() as int
                        } else {
                            p2 + 1 + (data[p2] & 0x07u8) as int
                        }
                    } else {
                        p2
                    };
                    let acc2 = acc + property_id_spec(prop, 0x29, 0x2A) + rpm_value_part(
                        d,
                        object_id,
                        prop,
                    );
                    if p3 >= data.len() {
                        (p3, acc2)
                    } else {
                        rpm_props(d, data, p3, object_id, acc2)
                    }
                },
            }
        }
    }
}

/// Object specifications of a ReadPropertyMultiple request read from `pos`,
/// with their results appended to `acc`.
pub open spec fn rpm_objects(d: LocalDevice, data: Seq<u8>, pos: int, acc: Seq<u8>) -> Seq<u8>
    decreases data.len() - pos,
{
    if pos < 0 || pos >= data.len() || data[pos] != 0x0Cu8 || pos + 5 > data.len() {
        acc
    } else {
        let oid = be32(data[pos + 1], data[pos + 2], data[pos + 3], data[pos + 4]);
        let p = pos + 5;
        if oid / 0x400000 != OBJECT_TYPE_DEVICE || oid % 0x400000 != d.device_instance {
            let q = skip_to_object(data, p);
            if q <= pos || q > data.len() {
                acc
            } else {
                rpm_objects(d, data, q, acc)
            }
        } else {
            let acc1 = acc + seq![0x0Cu8] + be32_bytes(oid) + seq![0x1Eu8];
            if p >= data.len() || data[p] != 0x1Eu8 {
                acc1
            } else {
                let r = rpm_props(d, data, p + 1, oid, acc1);
                let p4 = if 0 <= r.0 < data.len() && data[r.0] == 0x1Fu8 {
                    r.0 + 1
                } else {
                    r.0
                };
                let acc3 = r.1 + seq![0x1Fu8];
                if p4 >= data.len() || p4 <= pos {
                    acc3
                } else {
                    rpm_objects(d, data, p4, acc3)
                }
            }
        }
    }
}

/// The ReadPropertyMultiple Complex-ACK for service data `data`.
pub open spec fn rpm_answer_spec(d: LocalDevice, invoke_id: u8, data: Seq<u8>) -> Seq<u8> {
    rpm_objects(d, data, 0, seq![APDU_COMPLEX_ACK, invoke_id, SERVICE_READ_PROPERTY_MULTIPLE])
}

proof fn lemma_skip_to_object(d: Seq<u8>, pos: int)
    requires
        0 <= pos,
    ensures
        skip_to_object(d, pos) >= pos,
        pos <= d.len() ==> skip_to_object(d, pos) <= d.len(),
    decreases d.len() - pos,
{
    if pos < d.len() && d[pos] != 0x0Cu8 {
        lemma_skip_to_object(d, pos + 1);
    }
}

proof fn lemma_rpm_props_advances(d: LocalDevice, data: Seq<u8>, pos: int, object_id: u32, acc: Seq<u8>)
    ensures
        rpm_props(d, data, pos, object_id, acc).0 >= pos,
    decreases data.len() - pos,
{
    if pos < 0 || pos >= data.len() || data[pos] == 0x1Fu8 {
    } else {
        let t = data[pos];
        let length = (t & 0x07u8) as int;
        if t & 0x08u8 == 0 || (t >> 4u8) & 0x0Fu8 != 0 {
            lemma_rpm_props_advances(d, data, pos + 1, object_id, acc);
        } else if pos + 1 + length > data.len() {
        } else {
            match unsigned_field(data, pos + 1, length) {
                None => lemma_rpm_props_advances(d, data, pos + 1 + length, object_id, acc),
                Some(prop) => {
                    let p2 = pos + 1 + length;
                    let p3 = if p2 < data.len() && (data[p2] & 0xF8u8) == 0x18u8 {
                        if p2 + 1 + (data[p2] & 0x07u8) as int >= data.len() {
                            data.len() as int
                        } else {
                            p2 + 1 + (data[p2] & 0x07u8) as int
                        }
                    } else {
                        p2
                    };
                    let acc2 = acc + property_id_spec(prop, 0x29, 0x2A) + rpm_value_part(
                        d,
                        object_id,
                        prop,
                    );
                    if p3 < data.len() {
                        lemma_rpm_props_advances(d, data, p3, object_id, acc2);
                    }
                },
            }
        }
    }
}

impl LocalDevice {
    /// Answer a ReadPropertyMultiple request with service data `data`.
    pub fn handle_read_property_multiple(&self, invoke_id: u8, data: &[u8]) -> (r: Option<(Vec<u8>, bool)>)
        ensures
            r matches Some((v, b)) && v@ == rpm_answer_spec(*self, invoke_id, data@) && !b,
    {
        let mut apdu: Vec<u8> = Vec::new();
        apdu.push(APDU_COMPLEX_ACK);
        apdu.push(invoke_id);
        apdu.push(SERVICE_READ_PROPERTY_MULTIPLE);
        let ghost target = rpm_objects(*self, data@, 0, apdu@);
        assert(apdu@ =~= seq![APDU_COMPLEX_ACK, invoke_id, SERVICE_READ_PROPERTY_MULTIPLE]);
        let mut pos: usize = 0;
        while pos < data.len()
            invariant_except_break
                rpm_objects(*self, data@, pos as int, apdu@) == target,
            ensures
                apdu@ == target,
            decreases data@.len() - pos,
        {
            let ghost pos0 = pos as int;
            let ghost acc0 = apdu@;
            if data[pos] != 0x0C {
                break;
            }
            if data.len() - pos < 5 {
                break;
            }
            let object_id = read_be32(data[pos + 1], data[pos + 2], data[pos + 3], data[pos + 4]);
            pos = pos + 5;
            if object_id / 0x400000 != OBJECT_TYPE_DEVICE || object_id % 0x400000
                != self.device_instance {
                proof {
                    lemma_skip_to_object(data@, pos as int);
                }
                while pos < data.len() && data[pos] != 0x0C
                    invariant
                        pos0 + 5 <= pos <= data@.len(),
                        skip_to_object(data@, pos as int) == skip_to_object(data@, pos0 + 5),
                    decreases data@.len() - pos,
                {
                    pos = pos + 1;
                }
                assert(skip_to_object(data@, pos as int) == pos as int);
                assert(rpm_objects(*self, data@, pos0, acc0) == rpm_objects(
                    *self,
                    data@,
                    pos as int,
                    acc0,
                ));
                continue;
            }
            apdu.push(0x0C);
            push_be32(&mut apdu, object_id);
            apdu.push(0x1E);
            assert(apdu@ =~= acc0 + seq![0x0Cu8] + be32_bytes(object_id) + seq![0x1Eu8]);
            if pos >= data.len() || data[pos] != 0x1E {
                break;
            }
            pos = pos + 1;
            let ghost acc_obj = apdu@;
            let ghost inner_target = rpm_props(*self, data@, pos as int, object_id, apdu@);
            proof {
                lemma_rpm_props_advances(*self, data@, pos as int, object_id, apdu@);
            }
            while pos < data.len() && data[pos] != 0x1F
                invariant_except_break
                    pos <= data@.len(),
                    rpm_props(*self, data@, pos as int, object_id, apdu@) == inner_target,
                ensures
                    inner_target == (pos as int, apdu@),
                decreases data@.len() - pos,
            {
                let ghost acc1 = apdu@;
                let tag_byte = data[pos];
                let tag_num = (tag_byte >> 4u8) & 0x0F;
                let is_context = (tag_byte & 0x08) != 0;
                let length = (tag_byte & 0x07) as usize;
                if !is_context || tag_num != 0 {
                    pos = pos + 1;
                    continue;
                }
                pos = pos + 1;
                if length > data.len() - pos {
                    break;
                }
                let property_id: u32 = if length == 1 {
                    data[pos] as u32
                } else if length == 2 {
                    (data[pos] as u32) * 256 + (data[pos + 1] as u32)
                } else if length == 3 {
                    (data[pos] as u32) * 65536 + (data[pos + 1] as u32) * 256 + (data[pos
                        + 2] as u32)
                } else if length == 4 {
                    read_be32(data[pos], data[pos + 1], data[pos + 2], data[pos + 3])
                } else {
                    pos = pos + length;
                    continue;
                };
                pos = pos + length;
                if pos < data.len() {
                    let next_tag = data[pos];
                    if (next_tag & 0xF8) == 0x18 {
                        let len = (next_tag & 0x07) as usize;
                        if len >= data.len() - pos - 1 {
                            pos = data.len();
                        } else {
                            pos = pos + 1 + len;
                        }
                    }
                }
                push_property_id(&mut apdu, property_id, 0x29, 0x2A);
                let value = self.property_value(object_id, property_id, true);
                match value {
                    Some(v) => {
                        apdu.push(0x4E);
                        extend_bytes(&mut apdu, v.as_slice());
                        apdu.push(0x4F);
                    },
                    None => {
                        apdu.push(0x5E);
                        apdu.push(0x91);
                        apdu.push(ERROR_CLASS_PROPERTY as u8);
                        apdu.push(0x91);
                        apdu.push(ERROR_CODE_UNKNOWN_PROPERTY as u8);
                        apdu.push(0x5F);
                    },
                }
                assert(apdu@ =~= acc1 + property_id_spec(property_id, 0x29, 0x2A) + rpm_value_part(
                    *self,
                    object_id,
                    property_id,
                ));
            }
            if pos < data.len() && data[pos] == 0x1F {
                pos = pos + 1;
            }
            apdu.push(0x1F);
            assert(apdu@ =~= inner_target.1 + seq![0x1Fu8]);
            assert(pos as int > pos0);
            assert(rpm_objects(*self, data@, pos0, acc0) == (if pos >= data@.len() {
                apdu@
            } else {
                rpm_objects(*self, data@, pos as int, apdu@)
            }));
            if pos >= data.len() {
                break;
            }
        }
        Some((apdu, false))
    }
}

/// The local device's answer to an APDU: the response and whether it is to be
/// broadcast; `None` where no answer is due.
pub open spec fn process_apdu_spec(d: LocalDevice, apdu: Seq<u8>) -> Option<(Seq<u8>, bool)> {
    if apdu.len() == 0 {
        None
    } else {
        let pdu_type = apdu[0] & 0xF0u8;
        if pdu_type == APDU_UNCONFIRMED_REQUEST {
            if apdu.len() < 2 || apdu[1] != SERVICE_WHO_IS {
                None
            } else {
                who_is_answer_spec(d, apdu.subrange(2, apdu.len() as int))
            }
        } else if pdu_type == APDU_CONFIRMED_REQUEST {
            if apdu.len() < 4 {
                None
            } else {
                let body = apdu.subrange(4, apdu.len() as int);
                if apdu[3] == SERVICE_READ_PROPERTY {
                    match read_property_answer_spec(d, apdu[2], body) {
                        Some(v) => Some((v, false)),
                        None => None,
                    }
                } else if apdu[3] == SERVICE_READ_PROPERTY_MULTIPLE {
                    Some((rpm_answer_spec(d, apdu[2], body), false))
                } else {
                    None
                }
            }
        } else {
            None
        }
    }
}

impl LocalDevice {
    /// Answer an APDU addressed to this device; returns the response and whether
    /// it is to be broadcast.
    pub fn process_apdu(&self, apdu: &[u8]) -> (r: Option<(Vec<u8>, bool)>)
        ensures
            match r {
                Some((v, b)) => process_apdu_spec(*self, apdu@) == Some((v@, b)),
                None => process_apdu_spec(*self, apdu@) is None,
            },
    {
        if apdu.len() == 0 {
            return None;
        }
        let pdu_type = apdu[0] & 0xF0;
        if pdu_type == APDU_UNCONFIRMED_REQUEST {
            self.process_unconfirmed_request(apdu)
        } else if pdu_type == APDU_CONFIRMED_REQUEST {
            self.process_confirmed_request(apdu)
        } else {
            None
        }
    }

    /// Answer an unconfirmed request (Who-Is).
    pub fn process_unconfirmed_request(&self, apdu: &[u8]) -> (r: Option<(Vec<u8>, bool)>)
        ensures
            match r {
                Some((v, b)) => apdu@.len() >= 2 && apdu@[1] == SERVICE_WHO_IS
                    && who_is_answer_spec(*self, apdu@.subrange(2, apdu@.len() as int)) == Some(
                    (v@, b),
                ),
                None => apdu@.len() < 2 || apdu@[1] != SERVICE_WHO_IS || who_is_answer_spec(
                    *self,
                    apdu@.subrange(2, apdu@.len() as int),
                ) is None,
            },
    {
        if apdu.len() < 2 {
            return None;
        }
        let service_choice = apdu[1];
        if service_choice == SERVICE_WHO_IS {
            self.handle_who_is(&apdu[2..apdu.len()])
        } else {
            None
        }
    }

    /// Answer a confirmed request (ReadProperty, ReadPropertyMultiple).
    pub fn process_confirmed_request(&self, apdu: &[u8]) -> (r: Option<(Vec<u8>, bool)>)
        ensures
            apdu@.len() > 0 && apdu@[0] & 0xF0u8 == APDU_CONFIRMED_REQUEST ==> match r {
                Some((v, b)) => process_apdu_spec(*self, apdu@) == Some((v@, b)),
                None => process_apdu_spec(*self, apdu@) is None,
            },
    {
        if apdu.len() < 4 {
            return None;
        }
        let invoke_id = apdu[2];
        let service_choice = apdu[3];
        if service_choice == SERVICE_READ_PROPERTY {
            self.handle_read_property(invoke_id, &apdu[4..apdu.len()])
        } else if service_choice == SERVICE_READ_PROPERTY_MULTIPLE {
            self.handle_read_property_multiple(invoke_id, &apdu[4..apdu.len()])
        } else {
            None
        }
    }
}

/// Device information read from an I-Am.
#[derive(Debug, Clone, Copy, Default, PartialEq, Eq, Structural)]
pub struct DiscoveredDevice {
    pub device_instance: u32,
    pub mac_address: u8,
    pub max_apdu_length: u32,
    pub segmentation: u8,
    pub vendor_id: u16,
}

/// Device information carried by the I-Am APDU `apdu` from `mac`, or `None`
/// where it is not a device I-Am.
pub open spec fn from_i_am_spec(apdu: Seq<u8>, mac: u8) -> Option<DiscoveredDevice> {
    if apdu.len() < 12 || apdu[0] != APDU_UNCONFIRMED_REQUEST || apdu[1] != SERVICE_I_AM {
        None
    } else if apdu[2] & 0xF0u8 != 0xC0u8 || apdu[2] & 0x07u8 != 4 {
        None
    } else {
        let oid = be32(apdu[3], apdu[4], apdu[5], apdu[6]);
        if oid / 0x400000 != OBJECT_TYPE_DEVICE {
            None
        } else {
            // Max APDU length accepted (application tag 2)
            let p0: int = 7;
            let has_max = p0 < apdu.len() && apdu[p0] & 0xF0u8 == 0x20u8;
            let l0 = (apdu[p0] & 0x07u8) as int;
            let (max_apdu, p1) = if !has_max {
                (480u32, p0)
            } else if p0 + 1 + l0 <= apdu.len() {
                (
                    if l0 == 1 {
                        apdu[p0 + 1] as u32
                    } else if l0 == 2 {
                        ((apdu[p0 + 1] as u32) * 256 + (apdu[p0 + 2] as u32)) as u32
                    } else {
                        480u32
                    },
                    p0 + 1 + l0,
                )
            } else {
                (480u32, p0 + 1)
            };
            // Segmentation supported (application tag 9)
            let has_seg = p1 < apdu.len() && apdu[p1] & 0xF0u8 == 0x90u8;
            let l1 = (apdu[p1] & 0x07u8) as int;
            let (seg, p2) = if !has_seg {
                (3u8, p1)
            } else if p1 + 1 + l1 <= apdu.len() && l1 >= 1 {
                (apdu[p1 + 1], p1 + 1 + l1)
            } else {
                (3u8, p1 + 1)
            };
            // Vendor identifier (application tag 2)
            let has_vendor = p2 < apdu.len() && apdu[p2] & 0xF0u8 == 0x20u8;
            let l2 = (apdu[p2] & 0x07u8) as int;
            let vendor: u16 = if has_vendor && p2 + 1 + l2 <= apdu.len() {
                if l2 == 1 {
                    apdu[p2 + 1] as u16
                } else if l2 == 2 {
                    ((apdu[p2 + 1] as u16) * 256 + (apdu[p2 + 2] as u16)) as u16
                } else {
                    0u16
                }
            } else {
                0u16
            };
            Some(
                DiscoveredDevice {
                    device_instance: oid % 0x400000,
                    mac_address: mac,
                    max_apdu_length: max_apdu,
                    segmentation: seg,
                    vendor_id: vendor,
                },
            )
        }
    }
}

impl DiscoveredDevice {
    /// Read device information from an I-Am APDU received from `mac_address`.
    pub fn from_i_am(apdu: &[u8], mac_address: u8) -> (r: Option<DiscoveredDevice>)
        ensures
            r == from_i_am_spec(apdu@, mac_address),
    {
        if apdu.len() < 12 {
            return None;
        }
        if apdu[0] != APDU_UNCONFIRMED_REQUEST || apdu[1] != SERVICE_I_AM {
            return None;
        }
        let mut pos: usize = 2;
        if (apdu[pos] & 0xF0) != 0xC0 {
            return None;
        }
        let tag_len = (apdu[pos] & 0x07) as usize;
        pos = pos + 1;
        if tag_len != 4 {
            return None;
        }
        let object_id = read_be32(apdu[pos], apdu[pos + 1], apdu[pos + 2], apdu[pos + 3]);
        let device_instance = object_id % 0x400000;
        pos = pos + tag_len;
        if object_id / 0x400000 != OBJECT_TYPE_DEVICE {
            return None;
        }
        let mut max_apdu_length: u32 = 480;
        if pos < apdu.len() && (apdu[pos] & 0xF0) == 0x20 {
            let len = (apdu[pos] & 0x07) as usize;
            pos = pos + 1;
            if len <= apdu.len() - pos {
                max_apdu_length = if len == 1 {
                    apdu[pos] as u32
                } else if len == 2 {
                    (apdu[pos] as u32) * 256 + (apdu[pos + 1] as u32)
                } else {
                    480
                };
                pos = pos + len;
            }
        }
        let mut segmentation: u8 = 3;
        if pos < apdu.len() && (apdu[pos] & 0xF0) == 0x90 {
            let len = (apdu[pos] & 0x07) as usize;
            pos = pos + 1;
            if len <= apdu.len() - pos && len >= 1 {
                segmentation = apdu[pos];
                pos = pos + len;
            }
        }
        let mut vendor_id: u16 = 0;
        if pos < apdu.len() && (apdu[pos] & 0xF0) == 0x20 {
            let len = (apdu[pos] & 0x07) as usize;
            pos = pos + 1;
            if len <= apdu.len() - pos {
                vendor_id = if len == 1 {
                    apdu[pos] as u16
                } else if len == 2 {
                    (apdu[pos] as u16) * 256 + (apdu[pos + 1] as u16)
                } else {
                    0
                };
            }
        }
        Some(
            DiscoveredDevice {
                device_instance,
                mac_address,
                max_apdu_length,
                segmentation,
                vendor_id,
            },
        )
    }
}

/// A context-tagged unsigned integer, followed by anything, decodes back to
/// its value and its length.
pub proof fn lemma_context_unsigned_roundtrip(tag: u8, value: u32, rest: Seq<u8>)
    requires
        tag < 16,
    ensures
        decode_context_unsigned_spec(encode_context_unsigned_spec(tag, value) + rest, 0, tag) == Some(
            (value, encode_context_unsigned_spec(tag, value).len() as int),
        ),
{
    let e = encode_context_unsigned_spec(tag, value);
    let d = e + rest;
    let n: u8 = if value <= 0xFF {
        1
    } else if value <= 0xFFFF {
        2
    } else if value <= 0xFFFFFF {
        3
    } else {
        4
    };
    let t: u8 = (tag << 4u8) | 0x08u8 | n;
    assert(t & 0x08u8 != 0 && (t >> 4u8) & 0x0Fu8 == tag && t & 0x07u8 == n) by (bit_vector)
        requires
            tag < 16,
            1 <= n <= 4,
            t == (tag << 4u8) | 0x08u8 | n,
    ;
    assert(d[0] == t);
    assert(e.len() == 1 + n);
    if value <= 0xFF {
    } else if value <= 0xFFFF {
        assert(d[1] == hi8(value as u16) && d[2] == lo8(value as u16));
        crate::bytes::lemma_be16_roundtrip(value as u16);
    } else if value <= 0xFFFFFF {
        let b = be32_bytes(value);
        assert(d[1] == b[1] && d[2] == b[2] && d[3] == b[3]);
        assert(b[0] == 0);
        crate::bytes::lemma_be32_roundtrip(value);
    } else {
        let b = be32_bytes(value);
        assert(d[1] == b[0] && d[2] == b[1] && d[3] == b[2] && d[4] == b[3]);
        crate::bytes::lemma_be32_roundtrip(value);
    }
}

/// A device answers the Who-Is for the range `low..=high` that
/// `build_who_is_range(low, high)` builds (`who_is_range_apdu`) with its I-Am
/// broadcast exactly when its instance lies in the range, and not at all
/// otherwise; `process_apdu` returns this answer.
pub proof fn lemma_who_is_range_answer(d: LocalDevice, low: u32, high: u32)
    ensures
        process_apdu_spec(d, who_is_range_apdu(low, high)) == if low <= d.device_instance && d.device_instance <= high {
            Some((i_am_spec(d.device_instance), true))
        } else {
            None::<(Seq<u8>, bool)>
        },
{
    let lo = encode_context_unsigned_spec(0, low);
    let hi = encode_context_unsigned_spec(1, high);
    let apdu = seq![APDU_UNCONFIRMED_REQUEST, SERVICE_WHO_IS] + lo + hi;
    let data = lo + hi;
    assert(apdu.subrange(2, apdu.len() as int) =~= data);
    assert(0x10u8 & 0xF0u8 == 0x10u8) by (bit_vector);
    lemma_context_unsigned_roundtrip(0, low, hi);
    lemma_context_unsigned_roundtrip(1, high, Seq::empty());
    let c = lo.len() as int;
    assert(data.subrange(c, data.len() as int) =~= hi + Seq::<u8>::empty());
    lemma_decode_at_offset(data, c, 1);
    assert(decode_context_unsigned_spec(data, c, 1) == Some((high, hi.len() as int)));
}

/// Decoding at `pos` looks only at the bytes from `pos` on.
pub proof fn lemma_decode_at_offset(d: Seq<u8>, pos: int, tag: u8)
    requires
        0 <= pos <= d.len(),
    ensures
        decode_context_unsigned_spec(d, pos, tag) == (match decode_context_unsigned_spec(
            d.subrange(pos, d.len() as int),
            0,
            tag,
        ) {
            Some((v, c)) => Some((v, c)),
            None => None,
        }),
{
    let s = d.subrange(pos, d.len() as int);
    assert forall|k: int| 0 <= k < s.len() implies s[k] == d[pos + k] by {}
}

/// A ReadProperty of the device object for a property with a one-byte
/// identifier `prop` (application tag 1 in the request).
pub open spec fn read_property_request(invoke_id: u8, instance: u32, prop: u8) -> Seq<u8> {
    seq![APDU_CONFIRMED_REQUEST, 0x05u8, invoke_id, SERVICE_READ_PROPERTY, 0x0Cu8] + be32_bytes(
        (OBJECT_TYPE_DEVICE * 0x400000 + instance) as u32,
    ) + seq![0x19u8, prop]
}

/// The Complex-ACK to `read_property_request(invoke_id, instance, prop)`
/// carrying the property value `value`.
pub open spec fn read_property_ack(invoke_id: u8, instance: u32, prop: u8, value: Seq<u8>) -> Seq<u8> {
    seq![APDU_COMPLEX_ACK, invoke_id, SERVICE_READ_PROPERTY, 0x0Cu8] + be32_bytes(
        (OBJECT_TYPE_DEVICE * 0x400000 + instance) as u32,
    ) + seq![0x19u8, prop, 0x3Eu8] + value + seq![0x3Fu8]
}

proof fn lemma_read_property_of_device(d: LocalDevice, invoke_id: u8, prop: u8)
    requires
        d.device_instance < 0x400000,
    ensures
        process_apdu_spec(d, read_property_request(invoke_id, d.device_instance, prop)) == match property_value_spec(
            d,
            (OBJECT_TYPE_DEVICE * 0x400000 + d.device_instance) as u32,
            prop as u32,
            false,
        ) {
            Some(v) => Some((read_property_ack(invoke_id, d.device_instance, prop, v), false)),
            None => Some(
                (
                    error_response_spec(
                        invoke_id,
                        SERVICE_READ_PROPERTY,
                        ERROR_CLASS_PROPERTY,
                        ERROR_CODE_UNKNOWN_PROPERTY,
                    ),
                    false,
                ),
            ),
        },
{
    let oid = (OBJECT_TYPE_DEVICE * 0x400000 + d.device_instance) as u32;
    let apdu = read_property_request(invoke_id, d.device_instance, prop);
    let body = apdu.subrange(4, apdu.len() as int);
    assert(0x00u8 & 0xF0u8 == 0x00u8) by (bit_vector);
    assert(body =~= seq![0x0Cu8] + be32_bytes(oid) + seq![0x19u8, prop]);
    crate::bytes::lemma_be32_roundtrip(oid);
    assert(be32(body[1], body[2], body[3], body[4]) == oid);
    assert(oid / 0x400000 == OBJECT_TYPE_DEVICE && oid % 0x400000 == d.device_instance);
    let t: u8 = 0x19;
    assert(t & 0x08u8 != 0 && (t >> 4u8) & 0x0Fu8 == 1 && t & 0x07u8 == 1) by (bit_vector)
        requires
            t == 0x19u8,
    ;
    assert(body[5] == 0x19u8 && body[6] == prop);
    assert(property_id_spec(prop as u32, 0x19, 0x1A) == seq![0x19u8, prop]);
    match property_value_spec(d, oid, prop as u32, false) {
        Some(v) => {
            assert(read_property_response_spec(d, invoke_id, oid, prop as u32) =~= read_property_ack(
                invoke_id,
                d.device_instance,
                prop,
                v,
            ));
        },
        None => {},
    }
}

/// Reading Max_Master (property 64) of the device object is answered with a
/// Complex-ACK whose value is the application-tagged unsigned `max_master`
/// of the device; reading Max_Info_Frames (property 63) likewise gives its
/// `max_info_frames`. A ReadPropertyMultiple reports the same values.
pub proof fn lemma_read_max_master(d: LocalDevice, invoke_id: u8)
    requires
        d.device_instance < 0x400000,
    ensures
        process_apdu_spec(d, read_property_request(invoke_id, d.device_instance, 64)) == Some(
            (read_property_ack(invoke_id, d.device_instance, 64, seq![0x21u8, d.max_master]), false),
        ),
        process_apdu_spec(d, read_property_request(invoke_id, d.device_instance, 63)) == Some(
            (read_property_ack(invoke_id, d.device_instance, 63, seq![0x21u8, d.max_info_frames]), false),
        ),
        forall|oid: u32| #[trigger] rpm_value_part(d, oid, 64) == seq![0x4Eu8, 0x21u8, d.max_master, 0x4Fu8],
        forall|oid: u32| #[trigger] rpm_value_part(d, oid, 63) == seq![0x4Eu8, 0x21u8, d.max_info_frames, 0x4Fu8],
{
    assert forall|oid: u32| #[trigger] rpm_value_part(d, oid, 64) == seq![0x4Eu8, 0x21u8, d.max_master, 0x4Fu8] by {
        assert(rpm_value_part(d, oid, 64) =~= seq![0x4Eu8, 0x21u8, d.max_master, 0x4Fu8]);
    }
    assert forall|oid: u32| #[trigger] rpm_value_part(d, oid, 63) == seq![0x4Eu8, 0x21u8, d.max_info_frames, 0x4Fu8] by {
        assert(rpm_value_part(d, oid, 63) =~= seq![0x4Eu8, 0x21u8, d.max_info_frames, 0x4Fu8]);
    }
    lemma_read_property_of_device(d, invoke_id, 64);
    lemma_read_property_of_device(d, invoke_id, 63);
}

/// A device that hears its own I-Am (instance below 2^22) reads back its
/// instance, a maximum APDU of 480 bytes, no segmentation and vendor 65535.
pub proof fn lemma_i_am_roundtrip(instance: u32, mac: u8)
    requires
        instance < 0x400000,
    ensures
        from_i_am_spec(i_am_spec(instance), mac) == Some(
            DiscoveredDevice {
                device_instance: instance,
                mac_address: mac,
                max_apdu_length: 480,
                segmentation: 3,
                vendor_id: 65535,
            },
        ),
{
    let oid: u32 = (8u32 << 22u32) | instance;
    assert(oid == 0x2000000 + instance) by (bit_vector)
        requires
            oid == (8u32 << 22u32) | instance,
            instance < 0x400000,
    ;
    let a = i_am_spec(instance);
    crate::bytes::lemma_be32_roundtrip(oid);
    assert(a[3] == be32_bytes(oid)[0] && a[4] == be32_bytes(oid)[1] && a[5] == be32_bytes(oid)[2]
        && a[6] == be32_bytes(oid)[3]);
    assert(a.len() == 15);
    assert(0xC4u8 & 0xF0u8 == 0xC0u8 && 0xC4u8 & 0x07u8 == 4) by (bit_vector);
    assert(0x22u8 & 0xF0u8 == 0x20u8 && 0x22u8 & 0x07u8 == 2) by (bit_vector);
    assert(0x91u8 & 0xF0u8 == 0x90u8 && 0x91u8 & 0x07u8 == 1) by (bit_vector);
    assert(a[7] == 0x22u8 && a[8] == 0x01u8 && a[9] == 0xE0u8 && a[10] == 0x91u8 && a[11] == 3u8
        && a[12] == 0x22u8 && a[13] == 0xFFu8 && a[14] == 0xFFu8);
}

} // verus!
