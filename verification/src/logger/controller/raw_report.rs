//! Extraction of the HID bytes from a raw input record.
use vstd::prelude::*;
use super::model::RawControllerReport;

verus! {

/// The raw input record type of HID devices.
pub const RIM_TYPEHID: u32 = 2;

/// The HID bytes of a raw input record: `None` unless the record is of HID
/// type and carries a non-empty report (`size_hid * count` bytes, within
/// `u32`) that lies inside `buffer` from `hid_offset` on.
pub open spec fn spec_report_bytes(
    record_type: u32,
    size_hid: u32,
    count: u32,
    buffer: Seq<u8>,
    hid_offset: usize,
) -> Option<Seq<u8>> {
    let byte_len = size_hid * count;
    if record_type != RIM_TYPEHID || byte_len > u32::MAX || byte_len == 0 || buffer.len()
        < hid_offset + byte_len {
        None
    } else {
        Some(buffer.subrange(hid_offset as int, hid_offset + byte_len))
    }
}

/// The controller report of a raw input record whose header fields were read
/// out (see `spec_report_bytes`).
pub fn controller_report_from_raw_input(
    record_type: u32,
    device_handle: isize,
    size_hid: u32,
    count: u32,
    buffer: &[u8],
    hid_offset: usize,
) -> (r: Option<RawControllerReport>)
    ensures
        match spec_report_bytes(record_type, size_hid, count, buffer@, hid_offset) {
            None => r.is_none(),
            Some(bytes) => r.is_some() && r.unwrap().device_handle == device_handle
                && r.unwrap().report@ == bytes,
        },
{
    if record_type != RIM_TYPEHID {
        return None;
    }
    let byte_len: u32 = match size_hid.checked_mul(count) {
        Some(v) => v,
        None => {
            return None;
        },
    };
    if byte_len == 0 {
        return None;
    }
    let end: u128 = hid_offset as u128 + byte_len as u128;
    if (buffer.len() as u128) < end {
        return None;
    }
    let mut report: Vec<u8> = Vec::new();
    let mut i: usize = hid_offset;
    while i < end as usize
        invariant
            hid_offset <= i <= end,
            end <= buffer.len(),
            end == hid_offset + byte_len,
            report@ == buffer@.subrange(hid_offset as int, i as int),
        decreases end - i,
    {
        report.push(buffer[i]);
        proof {
            assert(buffer@.subrange(hid_offset as int, i + 1) =~= buffer@.subrange(hid_offset as int, i as int).push(buffer@[i as int]));
        }
        i = i + 1;
    }
    Some(RawControllerReport { device_handle, report })
}

} // verus!
