//! Decoder of the buffers that the enumeration of a volume's change journal
//! returns: a cursor of eight bytes, then records of varying length, each
//! with a fixed header and a UTF-16 name.
//!
//! Nothing in a buffer is trusted. A record whose length cannot be right ends
//! the decoding of its buffer; a record whose name cannot be right, or whose
//! name the index refuses, is passed over.

use vstd::prelude::*;
use crate::entry::{entry_views, EntryView, FileEntry};
use crate::names::{is_unsafe_name, name_is_unsafe};
use crate::wire::{fits, le_u16, le_u32, le_u64, read_u64, u16_at, u32_at, u64_at};

verus! {

/// Bytes of the cursor at the start of a buffer.
pub const CURSOR_SIZE: usize = 8;

/// Bytes of a record's fixed header; the name follows no earlier.
pub const USN_RECORD_HEADER_SIZE: usize = 60;

/// The attribute bit that marks a directory.
pub const FILE_ATTRIBUTE_DIRECTORY: u32 = 0x10;

/// Offset of the file reference number in a record.
pub const FIELD_FILE_REFERENCE: usize = 8;

/// Offset of the parent's file reference number in a record.
pub const FIELD_PARENT_REFERENCE: usize = 16;

/// Offset of the attribute bits in a record.
pub const FIELD_FILE_ATTRIBUTES: usize = 52;

/// Offset of the name's length in bytes in a record.
pub const FIELD_NAME_LENGTH: usize = 56;

/// Offset, in a record, of the name's offset from the record's start.
pub const FIELD_NAME_OFFSET: usize = 58;

/// The text that a sequence of UTF-16 code units stands for, with the
/// replacement character in place of each unpaired surrogate.
pub uninterp spec fn utf16_lossy(units: Seq<u16>) -> Seq<char>;

/// Calls `String::from_utf16_lossy`. The contract gives the result its name
/// and states nothing else of it.
#[verifier::external_body]
fn decode_utf16_lossy(units: &Vec<u16>) -> (name: String)
    ensures
        name@ == utf16_lossy(units@),
{
    String::from_utf16_lossy(units)
}

/// The `count` code units that stand in `buf` from `at` on.
pub open spec fn name_units(buf: Seq<u8>, at: int, count: int) -> Seq<u16> {
    Seq::new(count as nat, |i: int| le_u16(buf, at + 2 * i) as u16)
}

/// Whether the attribute bits are those of a directory.
pub open spec fn is_directory(attributes: u32) -> bool {
    attributes & FILE_ATTRIBUTE_DIRECTORY != 0
}

/// The entry that a record with these fields stands for, unless the index
/// refuses its name.
pub open spec fn admitted_entry(
    id: u64,
    parent_id: u64,
    name: Seq<char>,
    attributes: u32,
    drive_idx: u8,
) -> Option<EntryView> {
    if is_unsafe_name(name) {
        None
    } else {
        Some(EntryView { id, parent_id, name, is_dir: is_directory(attributes), drive_idx })
    }
}

/// The entry has a name that the index keeps, and belongs to the volume
/// with index `drive_idx`.
pub open spec fn is_admitted(entry: EntryView, drive_idx: u8) -> bool {
    !is_unsafe_name(entry.name) && entry.drive_idx == drive_idx
}

/// A whole record stands at `offset`: its header lies in the buffer, and its
/// stated length covers the header and ends inside the buffer.
pub open spec fn record_fits(buf: Seq<u8>, offset: int) -> bool {
    &&& 0 <= offset
    &&& offset + USN_RECORD_HEADER_SIZE <= buf.len()
    &&& USN_RECORD_HEADER_SIZE <= le_u32(buf, offset)
    &&& offset + le_u32(buf, offset) <= buf.len()
}

/// The name of the record at `offset` is there to be read: it is not empty,
/// it is made of whole code units, and it lies behind the header and inside
/// the record.
pub open spec fn name_fits(buf: Seq<u8>, offset: int) -> bool {
    let name_len = le_u16(buf, offset + FIELD_NAME_LENGTH);
    let name_off = le_u16(buf, offset + FIELD_NAME_OFFSET);
    &&& name_len > 0
    &&& name_len % 2 == 0
    &&& name_off >= USN_RECORD_HEADER_SIZE
    &&& name_off + name_len <= le_u32(buf, offset)
}

/// The name of the record at `offset`, as text.
pub open spec fn record_name(buf: Seq<u8>, offset: int) -> Seq<char> {
    utf16_lossy(
        name_units(
            buf,
            offset + le_u16(buf, offset + FIELD_NAME_OFFSET),
            le_u16(buf, offset + FIELD_NAME_LENGTH) / 2,
        ),
    )
}

/// The entry that the record at `offset` gives, if it gives one.
pub open spec fn record_entry(buf: Seq<u8>, offset: int, drive_idx: u8) -> Option<EntryView> {
    if name_fits(buf, offset) {
        admitted_entry(
            le_u64(buf, offset + FIELD_FILE_REFERENCE) as u64,
            le_u64(buf, offset + FIELD_PARENT_REFERENCE) as u64,
            record_name(buf, offset),
            le_u32(buf, offset + FIELD_FILE_ATTRIBUTES) as u32,
            drive_idx,
        )
    } else {
        None
    }
}

/// The entries that the records from `offset` on give, up to the first
/// record that does not fit.
pub open spec fn decoded_from(buf: Seq<u8>, offset: int, drive_idx: u8) -> Seq<EntryView>
    decreases buf.len() - offset,
{
    if record_fits(buf, offset) {
        let rest = decoded_from(buf, offset + le_u32(buf, offset), drive_idx);
        match record_entry(buf, offset, drive_idx) {
            Some(entry) => seq![entry] + rest,
            None => rest,
        }
    } else {
        Seq::empty()
    }
}

/// The cursor with which the next request starts, where the buffer holds one.
pub open spec fn next_cursor(buf: Seq<u8>) -> Option<u64> {
    if buf.len() >= CURSOR_SIZE {
        Some(le_u64(buf, 0) as u64)
    } else {
        None
    }
}

/// What one step over a buffer found at an offset.
pub enum RecordStep {
    /// No whole record stands there: the rest of the buffer is given up.
    Stop,
    /// A record stands there and gives no entry; the next one starts at `next`.
    Skip { next: usize },
    /// A record stands there and gives `entry`; the next one starts at `next`.
    Entry { entry: FileEntry, next: usize },
}

/// What a buffer held.
pub struct DecodedBuffer {
    /// The entries of the buffer's records, in the buffer's order.
    pub entries: Vec<FileEntry>,
    /// The cursor for the next request, where the buffer holds one.
    pub next_start: Option<u64>,
}

/// Makes the entry of a record from its fields and its decoded name, unless
/// the index refuses the name.
pub fn admit_entry(id: u64, parent_id: u64, name: String, attributes: u32, drive_idx: u8) -> (entry:
    Option<FileEntry>)
    ensures
        entry is Some <==> !is_unsafe_name(name@),
        match entry {
            Some(e) => Some(e@) == admitted_entry(id, parent_id, name@, attributes, drive_idx),
            None => admitted_entry(id, parent_id, name@, attributes, drive_idx) is None,
        },
{
    if name_is_unsafe(name.as_str()) {
        None
    } else {
        let is_dir = (attributes & FILE_ATTRIBUTE_DIRECTORY) != 0;
        Some(FileEntry { id, parent_id, name, is_dir, drive_idx })
    }
}

/// Reads the code units of a name: `count` of them, from `at` on.
fn read_name_units(buf: &[u8], at: usize, count: usize) -> (units: Vec<u16>)
    requires
        at + 2 * count <= buf.len(),
    ensures
        units@ == name_units(buf@, at as int, count as int),
{
    let mut units: Vec<u16> = Vec::new();
    let mut i: usize = 0;
    while i < count
        invariant
            i <= count,
            at + 2 * count <= buf.len(),
            units@.len() == i,
            forall|j: int| 0 <= j < i ==> units@[j] == le_u16(buf@, at + 2 * j) as u16,
        decreases count - i,
    {
        units.push(u16_at(buf, at + 2 * i));
        i += 1;
    }
    proof {
        assert(units@ =~= name_units(buf@, at as int, count as int));
    }
    units
}

/// Reads the record at `offset`: whether one stands there, where the next
/// one starts, and the entry that it gives.
pub fn read_record(buf: &[u8], offset: usize, drive_idx: u8) -> (step: RecordStep)
    ensures
        step is Stop <==> !record_fits(buf@, offset as int),
        match step {
            RecordStep::Stop => true,
            RecordStep::Skip { next } => {
                &&& next == offset + le_u32(buf@, offset as int)
                &&& record_entry(buf@, offset as int, drive_idx) is None
            },
            RecordStep::Entry { entry, next } => {
                &&& next == offset + le_u32(buf@, offset as int)
                &&& record_entry(buf@, offset as int, drive_idx) == Some(entry@)
            },
        },
{
    if !fits(buf, offset, USN_RECORD_HEADER_SIZE) {
        return RecordStep::Stop;
    }
    let rec_len: usize = u32_at(buf, offset) as usize;
    if rec_len < USN_RECORD_HEADER_SIZE || !fits(buf, offset, rec_len) {
        return RecordStep::Stop;
    }
    let next: usize = offset + rec_len;
    let name_len: usize = u16_at(buf, offset + FIELD_NAME_LENGTH) as usize;
    let name_off: usize = u16_at(buf, offset + FIELD_NAME_OFFSET) as usize;
    if name_len == 0 || name_len % 2 != 0 || name_off < USN_RECORD_HEADER_SIZE || name_off
        + name_len > rec_len {
        return RecordStep::Skip { next };
    }
    let id: u64 = u64_at(buf, offset + FIELD_FILE_REFERENCE);
    let parent_id: u64 = u64_at(buf, offset + FIELD_PARENT_REFERENCE);
    let attributes: u32 = u32_at(buf, offset + FIELD_FILE_ATTRIBUTES);
    let units = read_name_units(buf, offset + name_off, name_len / 2);
    let name = decode_utf16_lossy(&units);
    match admit_entry(id, parent_id, name, attributes, drive_idx) {
        Some(entry) => RecordStep::Entry { entry, next },
        None => RecordStep::Skip { next },
    }
}

/// Decodes one buffer: the entries of its records, and the cursor for the
/// next request. Decoding starts behind the cursor and ends at the first
/// record that does not fit; no record is read beyond the buffer's end.
pub fn decode_buffer(buf: &[u8], drive_idx: u8) -> (decoded: DecodedBuffer)
    ensures
        entry_views(decoded.entries@) == decoded_from(buf@, CURSOR_SIZE as int, drive_idx),
        decoded.next_start == next_cursor(buf@),
        forall|i: int|
            0 <= i < decoded.entries@.len() ==> is_admitted(
                (#[trigger] decoded.entries@[i])@,
                drive_idx,
            ),
{
    let next_start = read_u64(buf, 0);
    let mut entries: Vec<FileEntry> = Vec::new();
    let mut offset: usize = CURSOR_SIZE;
    loop
        invariant
            entry_views(entries@) + decoded_from(buf@, offset as int, drive_idx) == decoded_from(
                buf@,
                CURSOR_SIZE as int,
                drive_idx,
            ),
        ensures
            entry_views(entries@) == decoded_from(buf@, CURSOR_SIZE as int, drive_idx),
        decreases buf@.len() - offset,
    {
        let ghost before = entry_views(entries@);
        let ghost tail = decoded_from(buf@, offset as int, drive_idx);
        match read_record(buf, offset, drive_idx) {
            RecordStep::Stop => {
                proof {
                    assert(before + tail =~= before);
                }
                break ;
            },
            RecordStep::Skip { next } => {
                offset = next;
            },
            RecordStep::Entry { entry, next } => {
                entries.push(entry);
                proof {
                    let rest = decoded_from(buf@, next as int, drive_idx);
                    assert(entry_views(entries@) =~= before.push(entry@));
                    assert(before.push(entry@) + rest =~= before + (seq![entry@] + rest));
                }
                offset = next;
            },
        }
    }
    proof {
        lemma_decoded_entries_admitted(buf@, CURSOR_SIZE as int, drive_idx);
        assert forall|i: int| 0 <= i < entries@.len() implies is_admitted(
            (#[trigger] entries@[i])@,
            drive_idx,
        ) by {
            assert(entry_views(entries@)[i] == entries@[i]@);
        }
    }
    DecodedBuffer { entries, next_start }
}

/// No decoded entry has a name that the index refuses, and each carries the
/// index of the volume that it was decoded for.
pub proof fn lemma_decoded_entries_admitted(buf: Seq<u8>, offset: int, drive_idx: u8)
    ensures
        forall|i: int|
            0 <= i < decoded_from(buf, offset, drive_idx).len() ==> is_admitted(
                #[trigger] decoded_from(buf, offset, drive_idx)[i],
                drive_idx,
            ),
    decreases buf.len() - offset,
{
    if record_fits(buf, offset) {
        let rest = decoded_from(buf, offset + le_u32(buf, offset), drive_idx);
        lemma_decoded_entries_admitted(buf, offset + le_u32(buf, offset), drive_idx);
        let all = decoded_from(buf, offset, drive_idx);
        assert forall|i: int| 0 <= i < all.len() implies is_admitted(#[trigger] all[i], drive_idx) by {
            match record_entry(buf, offset, drive_idx) {
                Some(entry) => {
                    if i > 0 {
                        assert(all[i] == rest[i - 1]);
                    }
                },
                None => {},
            }
        }
    }
}

/// Every record that gives an entry lies wholly inside the buffer, header
/// and name: decoding reads no byte outside it, whatever lengths and offsets
/// the records state.
pub proof fn lemma_decoded_record_in_bounds(buf: Seq<u8>, offset: int, drive_idx: u8)
    requires
        record_fits(buf, offset),
        record_entry(buf, offset, drive_idx) is Some,
    ensures
        0 <= offset,
        offset + USN_RECORD_HEADER_SIZE <= offset + le_u16(buf, offset + FIELD_NAME_OFFSET),
        offset + le_u16(buf, offset + FIELD_NAME_OFFSET) + le_u16(buf, offset + FIELD_NAME_LENGTH)
            <= offset + le_u32(buf, offset),
        offset + le_u32(buf, offset) <= buf.len(),
{
}

} // verus!
