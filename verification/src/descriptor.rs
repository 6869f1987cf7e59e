//! Informational descriptor tooling: BOS and Billboard parsing.
//!
//! Before a session starts, the client may dump the device's Binary
//! Object Store descriptor and report any Billboard capability in it.
//! The requests are standard GET_DESCRIPTOR control transfers; the
//! replies are parsed here, byte by byte: the total length out of the BOS
//! header, the walk over the capability headers, the fields of a
//! Billboard capability, and the UTF-16 code units of a string
//! descriptor. The transfers themselves happen outside the library.

use crate::protocol::{ControlClass, ControlRequest, Direction, Recipient};
use vstd::prelude::*;

verus! {

/// Standard request code GET_DESCRIPTOR.
pub const REQ_GET_DESCRIPTOR: u8 = 0x06;

/// Descriptor type of a string descriptor.
pub const DESC_TYPE_STRING: u16 = 0x03;

/// Descriptor type of the Binary Object Store descriptor.
pub const DESC_TYPE_BOS: u16 = 0x0f;

/// bDescriptorType of a device capability inside the BOS blob.
pub const DESC_TYPE_DEVICE_CAPABILITY: u8 = 0x10;

/// bDevCapabilityType of a Billboard capability.
pub const CAP_TYPE_BILLBOARD: u8 = 0x0d;

/// Length of the BOS header, and the number of bytes its first read asks
/// for.
pub const BOS_HEADER_LEN: u16 = 5;

/// The language id the string-descriptor request names (US English).
pub const STRING_LANG_ID: u16 = 0x0409;

/// A sixteen-bit little-endian value read from two bytes.
pub open spec fn le16(lo: u8, hi: u8) -> u16 {
    (lo as u16) | ((hi as u16) << 8)
}

/// Asks for the five-byte BOS header, which carries the blob's total
/// length.
pub fn bos_header_request() -> (r: ControlRequest)
    ensures
        r == (ControlRequest {
            direction: Direction::In,
            class: ControlClass::Standard,
            recipient: Recipient::Device,
            request: REQ_GET_DESCRIPTOR,
            value: (DESC_TYPE_BOS << 8) as u16,
            index: 0u16,
            length: BOS_HEADER_LEN,
        }),
{
    ControlRequest {
        direction: Direction::In,
        class: ControlClass::Standard,
        recipient: Recipient::Device,
        request: REQ_GET_DESCRIPTOR,
        value: DESC_TYPE_BOS << 8,
        index: 0,
        length: BOS_HEADER_LEN,
    }
}

/// Asks for the whole BOS blob, `total_len` bytes as the header announced.
pub fn bos_full_request(total_len: u16) -> (r: ControlRequest)
    ensures
        r == (ControlRequest {
            direction: Direction::In,
            class: ControlClass::Standard,
            recipient: Recipient::Device,
            request: REQ_GET_DESCRIPTOR,
            value: (DESC_TYPE_BOS << 8) as u16,
            index: 0u16,
            length: total_len,
        }),
{
    ControlRequest {
        direction: Direction::In,
        class: ControlClass::Standard,
        recipient: Recipient::Device,
        request: REQ_GET_DESCRIPTOR,
        value: DESC_TYPE_BOS << 8,
        index: 0,
        length: total_len,
    }
}

/// Asks for the string descriptor at `index`, in US English, up to 255
/// bytes.
pub fn string_descriptor_request(index: u8) -> (r: ControlRequest)
    ensures
        r == (ControlRequest {
            direction: Direction::In,
            class: ControlClass::Standard,
            recipient: Recipient::Device,
            request: REQ_GET_DESCRIPTOR,
            value: ((DESC_TYPE_STRING << 8) | (index as u16)) as u16,
            index: STRING_LANG_ID,
            length: 255u16,
        }),
{
    ControlRequest {
        direction: Direction::In,
        class: ControlClass::Standard,
        recipient: Recipient::Device,
        request: REQ_GET_DESCRIPTOR,
        value: (DESC_TYPE_STRING << 8) | (index as u16),
        index: STRING_LANG_ID,
        length: 255,
    }
}

/// Reads the blob's total length out of a BOS header: the little-endian
/// sixteen-bit field at bytes two and three. A reply shorter than the
/// header is malformed and yields `None`.
pub fn bos_total_length(header: &[u8]) -> (r: Option<u16>)
    ensures
        header@.len() >= BOS_HEADER_LEN ==> r == Some(le16(header@[2], header@[3])),
        header@.len() < BOS_HEADER_LEN ==> r is None,
{
    if header.len() < 5 {
        None
    } else {
        Some((header[2] as u16) | ((header[3] as u16) << 8))
    }
}

/// The offsets, in order, of the Billboard capabilities that a walk over
/// the BOS blob from `offset` finds. Each capability header is three
/// bytes — bLength, bDescriptorType, bDevCapabilityType — and the walk
/// advances by bLength, stopping at a truncated header, a zero bLength,
/// or a capability that overruns the blob.
pub open spec fn billboard_offsets(data: Seq<u8>, offset: int) -> Seq<int>
    decreases data.len() - offset,
{
    if offset < 0 || offset + 3 > data.len() {
        seq![]
    } else {
        let blen = data[offset] as int;
        let here = if data[offset + 1] == DESC_TYPE_DEVICE_CAPABILITY && data[offset + 2]
            == CAP_TYPE_BILLBOARD && offset + blen <= data.len() {
            seq![offset]
        } else {
            Seq::<int>::empty()
        };
        if blen == 0 || offset + blen > data.len() {
            here
        } else {
            here + billboard_offsets(data, offset + blen)
        }
    }
}

/// Walks the BOS blob and returns the offsets of its Billboard
/// capabilities, in order. The walk starts right after the five-byte
/// header.
pub fn find_billboard_capabilities(data: &[u8]) -> (r: Vec<usize>)
    ensures
        r@.map_values(|v: usize| v as int) == billboard_offsets(data@, BOS_HEADER_LEN as int),
{
    scan_capabilities(data, 5)
}

/// The walk itself, from an arbitrary offset.
fn scan_capabilities(data: &[u8], offset: usize) -> (r: Vec<usize>)
    ensures
        r@.map_values(|v: usize| v as int) == billboard_offsets(data@, offset as int),
    decreases data@.len() - offset,
{
    if offset > data.len() || data.len() - offset < 3 {
        let r: Vec<usize> = Vec::new();
        proof {
            assert(r@.map_values(|v: usize| v as int) =~= billboard_offsets(
                data@,
                offset as int,
            ));
        }
        return r;
    }
    let blen = data[offset] as usize;
    let hit = data[offset + 1] == DESC_TYPE_DEVICE_CAPABILITY && data[offset + 2]
        == CAP_TYPE_BILLBOARD && blen <= data.len() - offset;
    if blen == 0 || blen > data.len() - offset {
        let mut r: Vec<usize> = Vec::new();
        if hit {
            r.push(offset);
        }
        proof {
            assert(r@.map_values(|v: usize| v as int) =~= billboard_offsets(
                data@,
                offset as int,
            ));
        }
        return r;
    }
    let mut r: Vec<usize> = Vec::new();
    if hit {
        r.push(offset);
    }
    let mut rest = scan_capabilities(data, offset + blen);
    let ghost head = r@;
    r.append(&mut rest);
    proof {
        assert(r@.map_values(|v: usize| v as int) =~= billboard_offsets(data@, offset as int));
    }
    r
}

/// The three fields the client reports from a Billboard capability:
/// the additional-info URL's string index, the number of alternate modes,
/// and the preferred alternate-mode index, in that order. The caller must
/// hand in a capability long enough to hold them.
pub fn billboard_fields(cap: &[u8]) -> (r: (u8, u8, u8))
    requires
        cap@.len() >= 6,
    ensures
        r == (cap@[3], cap@[4], cap@[5]),
{
    (cap[3], cap[4], cap[5])
}

/// The UTF-16 code units of a string-descriptor payload: consecutive
/// little-endian pairs, a trailing odd byte ignored.
pub open spec fn le_units(s: Seq<u8>) -> Seq<u16>
    decreases s.len(),
{
    if s.len() < 2 {
        seq![]
    } else {
        seq![le16(s[0], s[1])] + le_units(s.skip(2))
    }
}

/// The code units a whole string descriptor carries: its payload after
/// the two header bytes. A reply shorter than its header carries none.
pub open spec fn string_descriptor_units(data: Seq<u8>) -> Seq<u16> {
    if data.len() < 2 {
        seq![]
    } else {
        le_units(data.skip(2))
    }
}

/// Extracts the UTF-16 code units of a string descriptor, ready for
/// decoding into text.
pub fn utf16_units(data: &[u8]) -> (r: Vec<u16>)
    ensures
        r@ == string_descriptor_units(data@),
{
    let mut r: Vec<u16> = Vec::new();
    if data.len() < 2 {
        return r;
    }
    let mut i: usize = 2;
    proof {
        assert(data@.skip(2).skip(0) =~= data@.skip(2));
        assert(r@ + le_units(data@.skip(2)) =~= le_units(data@.skip(2)));
    }
    while i < data.len() - 1
        invariant
            2 <= i <= data@.len(),
            data@.len() >= 2,
            le_units(data@.skip(2)) == r@ + le_units(data@.skip(i as int)),
        decreases data@.len() - i,
    {
        let ghost rest = data@.skip(i as int);
        proof {
            assert(rest[0] == data@[i as int]);
            assert(rest[1] == data@[i as int + 1]);
            assert(rest.skip(2) =~= data@.skip(i as int + 2));
            assert(le_units(rest) == seq![le16(rest[0], rest[1])] + le_units(rest.skip(2)));
            assert(r@ + le_units(rest) =~= r@.push(le16(rest[0], rest[1])) + le_units(
                rest.skip(2),
            ));
        }
        let unit = (data[i] as u16) | ((data[i + 1] as u16) << 8);
        r.push(unit);
        i = i + 2;
    }
    proof {
        assert(le_units(data@.skip(i as int)) =~= Seq::<u16>::empty());
        assert(r@ + Seq::<u16>::empty() =~= r@);
    }
    r
}

} // verus!
