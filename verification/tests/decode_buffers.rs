use deep_search::decode::{
    admit_entry, decode_buffer, read_record, RecordStep, CURSOR_SIZE, FILE_ATTRIBUTE_DIRECTORY,
    USN_RECORD_HEADER_SIZE,
};

/// One record with the given header fields and name units, padded to `record_length`.
fn raw_record(
    record_length: u32,
    id: u64,
    parent_id: u64,
    attributes: u32,
    name_length: u16,
    name_offset: u16,
    units: &[u16],
    total_bytes: usize,
) -> Vec<u8> {
    let mut rec = vec![0u8; 60];
    rec[0..4].copy_from_slice(&record_length.to_le_bytes());
    rec[4..6].copy_from_slice(&2u16.to_le_bytes());
    rec[8..16].copy_from_slice(&id.to_le_bytes());
    rec[16..24].copy_from_slice(&parent_id.to_le_bytes());
    rec[52..56].copy_from_slice(&attributes.to_le_bytes());
    rec[56..58].copy_from_slice(&name_length.to_le_bytes());
    rec[58..60].copy_from_slice(&name_offset.to_le_bytes());
    for unit in units {
        rec.extend_from_slice(&unit.to_le_bytes());
    }
    while rec.len() < total_bytes {
        rec.push(0);
    }
    rec
}

/// A well-formed record for `name`, padded to a multiple of eight bytes.
fn record(id: u64, parent_id: u64, attributes: u32, name: &str) -> Vec<u8> {
    let units: Vec<u16> = name.encode_utf16().collect();
    let name_bytes = units.len() * 2;
    let length = (60 + name_bytes + 7) / 8 * 8;
    raw_record(length as u32, id, parent_id, attributes, name_bytes as u16, 60, &units, length)
}

fn buffer(cursor: u64, records: &[Vec<u8>]) -> Vec<u8> {
    let mut buf = cursor.to_le_bytes().to_vec();
    for rec in records {
        buf.extend_from_slice(rec);
    }
    buf
}

#[test]
fn layout_constants() {
    assert_eq!(CURSOR_SIZE, 8);
    assert_eq!(USN_RECORD_HEADER_SIZE, 60);
    assert_eq!(FILE_ATTRIBUTE_DIRECTORY, 0x10);
}

#[test]
fn decodes_fields_and_name_of_one_record() {
    let buf = buffer(0x1122_3344_5566_7788, &[record(0xABCD_0000_0000_0005, 7, 0x20, "report.txt")]);
    let decoded = decode_buffer(&buf, 3);
    assert_eq!(decoded.next_start, Some(0x1122_3344_5566_7788));
    assert_eq!(decoded.entries.len(), 1);
    let e = &decoded.entries[0];
    assert_eq!(e.id, 0xABCD_0000_0000_0005);
    assert_eq!(e.parent_id, 7);
    assert_eq!(e.name, "report.txt");
    assert!(!e.is_dir);
    assert_eq!(e.drive_idx, 3);
}

#[test]
fn decodes_names_beyond_ascii() {
    let buf = buffer(1, &[record(1, 1, 0, "Übung-日本語-😀.txt")]);
    let decoded = decode_buffer(&buf, 0);
    assert_eq!(decoded.entries.len(), 1);
    assert_eq!(decoded.entries[0].name, "Übung-日本語-😀.txt");
}

#[test]
fn unpaired_surrogate_becomes_replacement_character() {
    let units = [0x0061u16, 0xD800, 0x0062];
    let rec = raw_record(72, 9, 1, 0, 6, 60, &units, 72);
    let decoded = decode_buffer(&buffer(0, &[rec]), 0);
    assert_eq!(decoded.entries.len(), 1);
    assert_eq!(decoded.entries[0].name, "a\u{FFFD}b");
}

#[test]
fn directory_bit_is_read_from_attributes() {
    let buf = buffer(
        0,
        &[
            record(1, 1, 0x10, "dir"),
            record(2, 1, 0x30, "dir_and_more"),
            record(3, 1, 0x20, "file"),
            record(4, 1, 0xFFFF_FFEF, "all_but_dir"),
        ],
    );
    let decoded = decode_buffer(&buf, 0);
    let flags: Vec<bool> = decoded.entries.iter().map(|e| e.is_dir).collect();
    assert_eq!(flags, vec![true, true, false, false]);
}

#[test]
fn keeps_records_in_buffer_order() {
    let buf = buffer(0, &[record(30, 1, 0, "c"), record(10, 1, 0, "a"), record(20, 1, 0, "b")]);
    let decoded = decode_buffer(&buf, 1);
    let ids: Vec<u64> = decoded.entries.iter().map(|e| e.id).collect();
    assert_eq!(ids, vec![30, 10, 20]);
}

#[test]
fn buffer_shorter_than_cursor_gives_nothing() {
    for len in 0..8 {
        let buf = vec![0xFFu8; len];
        let decoded = decode_buffer(&buf, 0);
        assert_eq!(decoded.next_start, None);
        assert!(decoded.entries.is_empty());
    }
}

#[test]
fn buffer_with_cursor_only_gives_cursor() {
    let decoded = decode_buffer(&42u64.to_le_bytes(), 0);
    assert_eq!(decoded.next_start, Some(42));
    assert!(decoded.entries.is_empty());
}

#[test]
fn truncated_header_ends_decoding() {
    let mut buf = buffer(0, &[record(1, 1, 0, "kept")]);
    let second = record(2, 1, 0, "lost");
    buf.extend_from_slice(&second[..59]);
    let decoded = decode_buffer(&buf, 0);
    assert_eq!(decoded.entries.len(), 1);
    assert_eq!(decoded.entries[0].name, "kept");
}

#[test]
fn zero_record_length_ends_decoding() {
    let bad = raw_record(0, 2, 1, 0, 2, 60, &[0x78], 64);
    let buf = buffer(0, &[record(1, 1, 0, "kept"), bad, record(3, 1, 0, "unreached")]);
    let decoded = decode_buffer(&buf, 0);
    let ids: Vec<u64> = decoded.entries.iter().map(|e| e.id).collect();
    assert_eq!(ids, vec![1]);
}

#[test]
fn record_length_below_header_ends_decoding() {
    let bad = raw_record(59, 2, 1, 0, 2, 60, &[0x78], 64);
    let buf = buffer(0, &[bad, record(3, 1, 0, "unreached")]);
    assert!(decode_buffer(&buf, 0).entries.is_empty());
}

#[test]
fn record_length_beyond_buffer_ends_decoding() {
    let bad = raw_record(65, 2, 1, 0, 2, 60, &[0x78], 64);
    let buf = buffer(0, &[record(1, 1, 0, "kept"), bad]);
    let decoded = decode_buffer(&buf, 0);
    assert_eq!(decoded.entries.len(), 1);
    let huge = raw_record(u32::MAX, 2, 1, 0, 2, 60, &[0x78], 64);
    assert!(decode_buffer(&buffer(0, &[huge]), 0).entries.is_empty());
}

#[test]
fn record_that_ends_exactly_at_buffer_end_is_decoded() {
    let rec = raw_record(62, 5, 1, 0, 2, 60, &[0x78], 62);
    let decoded = decode_buffer(&buffer(0, &[rec]), 0);
    assert_eq!(decoded.entries.len(), 1);
    assert_eq!(decoded.entries[0].name, "x");
}

#[test]
fn odd_name_length_skips_only_that_record() {
    let bad = raw_record(64, 2, 1, 0, 3, 60, &[0x78, 0x79], 64);
    let buf = buffer(0, &[record(1, 1, 0, "first"), bad, record(3, 1, 0, "third")]);
    let ids: Vec<u64> = decode_buffer(&buf, 0).entries.iter().map(|e| e.id).collect();
    assert_eq!(ids, vec![1, 3]);
}

#[test]
fn name_offset_inside_header_skips_only_that_record() {
    let bad = raw_record(64, 2, 1, 0, 2, 58, &[0x78], 64);
    let buf = buffer(0, &[bad, record(3, 1, 0, "third")]);
    let ids: Vec<u64> = decode_buffer(&buf, 0).entries.iter().map(|e| e.id).collect();
    assert_eq!(ids, vec![3]);
}

#[test]
fn name_beyond_record_skips_only_that_record() {
    let bad = raw_record(64, 2, 1, 0, 6, 60, &[0x78, 0x79], 64);
    let far = raw_record(64, 4, 1, 0, 2, 0xFFFE, &[0x78], 64);
    let buf = buffer(0, &[bad, far, record(3, 1, 0, "third")]);
    let ids: Vec<u64> = decode_buffer(&buf, 0).entries.iter().map(|e| e.id).collect();
    assert_eq!(ids, vec![3]);
}

#[test]
fn name_that_fills_record_to_its_end_is_decoded() {
    let rec = raw_record(64, 2, 1, 0, 4, 60, &[0x78, 0x79], 64);
    let decoded = decode_buffer(&buffer(0, &[rec]), 0);
    assert_eq!(decoded.entries[0].name, "xy");
}

#[test]
fn empty_name_gives_no_entry() {
    let empty = raw_record(64, 2, 1, 0, 0, 60, &[], 64);
    let buf = buffer(0, &[empty, record(3, 1, 0, "third")]);
    let ids: Vec<u64> = decode_buffer(&buf, 0).entries.iter().map(|e| e.id).collect();
    assert_eq!(ids, vec![3]);
}

#[test]
fn refused_names_are_dropped_and_decoding_goes_on() {
    let buf = buffer(
        0,
        &[
            record(1, 1, 0, "evil:stream"),
            record(2, 1, 0, "a::b"),
            record(3, 1, 0, "shortcut.lnk"),
            record(4, 1, 0, "{guid}"),
            record(5, 1, 0, "\\\\?\\C"),
            record(6, 1, 0, "plain.txt"),
            record(7, 1, 0, "only{open"),
            record(8, 1, 0, "only}close"),
            record(9, 1, 0, "shortcut.lnk.bak"),
            record(10, 1, 0, "}{"),
        ],
    );
    let ids: Vec<u64> = decode_buffer(&buf, 0).entries.iter().map(|e| e.id).collect();
    assert_eq!(ids, vec![6, 7, 8, 9]);
}

#[test]
fn garbage_never_panics() {
    let mut seed: u32 = 0x9E37_79B9;
    for round in 0..200 {
        let len = (round * 7) % 400;
        let mut buf = Vec::with_capacity(len);
        for _ in 0..len {
            seed = seed.wrapping_mul(1664525).wrapping_add(1013904223);
            buf.push((seed >> 24) as u8);
        }
        let decoded = decode_buffer(&buf, 0);
        assert!(decoded.entries.len() <= len / 62 + 1);
    }
}

#[test]
fn all_ones_buffer_gives_nothing() {
    let buf = vec![0xFFu8; 4096];
    let decoded = decode_buffer(&buf, 0);
    assert_eq!(decoded.next_start, Some(u64::MAX));
    assert!(decoded.entries.is_empty());
}

#[test]
fn read_record_reports_each_kind_of_step() {
    let buf = buffer(
        0,
        &[record(1, 1, 0x10, "ab"), raw_record(64, 2, 1, 0, 3, 60, &[0x78, 0x79], 64)],
    );
    match read_record(&buf, 8, 4) {
        RecordStep::Entry { entry, next } => {
            assert_eq!(entry.name, "ab");
            assert!(entry.is_dir);
            assert_eq!(entry.drive_idx, 4);
            assert_eq!(next, 8 + 64);
        }
        _ => panic!("an entry stands at offset 8"),
    }
    assert!(matches!(read_record(&buf, 72, 4), RecordStep::Skip { next: 136 }));
    assert!(matches!(read_record(&buf, 136, 4), RecordStep::Stop));
    assert!(matches!(read_record(&buf, usize::MAX, 4), RecordStep::Stop));
    assert!(matches!(read_record(&buf, 100, 4), RecordStep::Stop));
}

#[test]
fn admit_entry_keeps_plain_names_and_refuses_unsafe_ones() {
    let kept = admit_entry(5, 2, "notes.md".to_string(), 0x10, 1).unwrap();
    assert_eq!((kept.id, kept.parent_id, kept.is_dir, kept.drive_idx), (5, 2, true, 1));
    assert_eq!(kept.name, "notes.md");
    assert!(admit_entry(5, 2, "evil:stream".to_string(), 0, 1).is_none());
    assert!(admit_entry(5, 2, "x.lnk".to_string(), 0, 1).is_none());
    assert!(admit_entry(5, 2, String::new(), 0, 1).is_some());
}
