use datatbls::datatbls_mgr::DataTblsManager;
use datatbls::error::DataError;
use datatbls::stringtbl::{decode_string_table, StringTableHeader, StringTableManager};

/// Lays out a string table whose logical entry `i` sits in bucket slot `buckets[i]`.
fn build_table(entries: &[(&[u8], &[u8])], buckets: &[u16]) -> Vec<u8> {
    let count = entries.len();
    let slots = buckets.iter().map(|b| *b as usize + 1).max().unwrap_or(0);
    let node_start = 21 + 2 * count;
    let blob_start = node_start + 17 * slots;
    let mut blob = Vec::new();
    let mut offsets = Vec::new();
    for (k, v) in entries {
        let ko = blob_start + blob.len();
        blob.extend_from_slice(k);
        blob.push(0);
        let vo = blob_start + blob.len();
        blob.extend_from_slice(v);
        blob.push(0);
        offsets.push((ko as u32, vo as u32, v.len() as u16));
    }
    let mut data = Vec::new();
    data.extend_from_slice(&0xBEEFu16.to_le_bytes());
    data.extend_from_slice(&(count as u16).to_le_bytes());
    data.extend_from_slice(&(slots as u32).to_le_bytes());
    data.push(1);
    data.extend_from_slice(&(blob_start as u32).to_le_bytes());
    data.extend_from_slice(&2u32.to_le_bytes());
    data.extend_from_slice(&((blob_start + blob.len()) as u32).to_le_bytes());
    for b in buckets {
        data.extend_from_slice(&b.to_le_bytes());
    }
    let mut slot_bytes = vec![0u8; 17 * slots];
    for (i, b) in buckets.iter().enumerate() {
        let (ko, vo, vl) = offsets[i];
        let s = &mut slot_bytes[17 * *b as usize..17 * (*b as usize + 1)];
        s[0] = 1;
        s[1..3].copy_from_slice(&(i as u16).to_le_bytes());
        s[3..7].copy_from_slice(&0x12345678u32.to_le_bytes());
        s[7..11].copy_from_slice(&ko.to_le_bytes());
        s[11..15].copy_from_slice(&vo.to_le_bytes());
        s[15..17].copy_from_slice(&vl.to_le_bytes());
    }
    data.extend_from_slice(&slot_bytes);
    data.extend_from_slice(&blob);
    data
}

/// A table of `n` entries whose value `i` is `prefix` followed by `i`.
fn numbered_table(prefix: &str, n: usize) -> Vec<u8> {
    let keys: Vec<String> = (0..n).map(|i| format!("k{i}")).collect();
    let values: Vec<String> = (0..n).map(|i| format!("{prefix}{i}")).collect();
    let entries: Vec<(&[u8], &[u8])> =
        keys.iter().zip(values.iter()).map(|(k, v)| (k.as_bytes(), v.as_bytes())).collect();
    let buckets: Vec<u16> = (0..n as u16).rev().collect();
    build_table(&entries, &buckets)
}

#[test]
fn entries_come_back_in_logical_order() {
    let data = build_table(
        &[(b"first", b"one"), (b"second", b"two\nlines"), (b"third", b"")],
        &[2, 0, 1],
    );
    let entries = decode_string_table(&data).unwrap();
    assert_eq!(entries.len(), 3);
    assert_eq!(entries[0].key, "first");
    assert_eq!(entries[0].value, "one");
    assert_eq!(entries[1].key, "second");
    assert_eq!(entries[1].value, "two\\nlines");
    assert_eq!(entries[2].key, "third");
    assert_eq!(entries[2].value, "");
}

#[test]
fn utf8_keys_and_values_decode() {
    let data = build_table(&[("名".as_bytes(), "ÿc2毒\n\n".as_bytes())], &[0]);
    let entries = decode_string_table(&data).unwrap();
    assert_eq!(entries[0].key, "名");
    assert_eq!(entries[0].value, "ÿc2毒\\n\\n");
}

#[test]
fn header_fields_read_little_endian() {
    let data = build_table(&[(b"a", b"b")], &[0]);
    let h = StringTableHeader::read(&data).unwrap();
    assert_eq!(h.crc, 0xBEEF);
    assert_eq!(h.count, 1);
    assert_eq!(h.hash_table_size, 1);
    assert_eq!(h.unknown_08, 1);
    assert_eq!(h.string_start_offset, 21 + 2 + 17);
    assert_eq!(h.max_miss_times, 2);
    assert_eq!(h.string_end_offset as usize, data.len());
    assert_eq!(StringTableHeader::read(&data[..20]).unwrap_err(), DataError::TruncatedStream);
}

#[test]
fn empty_table_decodes() {
    let data = build_table(&[], &[]);
    assert!(decode_string_table(&data).unwrap().is_empty());
}

#[test]
fn truncated_tables_fail() {
    let data = build_table(&[(b"k", b"v")], &[0]);
    assert_eq!(decode_string_table(&data[..10]).unwrap_err(), DataError::TruncatedStream);
    assert_eq!(decode_string_table(&data[..22]).unwrap_err(), DataError::TruncatedStream);
    assert_eq!(decode_string_table(&data[..30]).unwrap_err(), DataError::TruncatedStream);
    // the value's terminating NUL is the last byte
    assert_eq!(
        decode_string_table(&data[..data.len() - 1]).unwrap_err(),
        DataError::TruncatedStream
    );
}

#[test]
fn invalid_utf8_entry_is_malformed() {
    let data = build_table(&[(b"k", &[0xE0, 0x80])], &[0]);
    assert_eq!(decode_string_table(&data).unwrap_err(), DataError::MalformedText);
    let data = build_table(&[(&[0xFF], b"v")], &[0]);
    assert_eq!(decode_string_table(&data).unwrap_err(), DataError::MalformedText);
}

fn loaded_manager(patch_len: usize) -> StringTableManager {
    let mut m = StringTableManager::new();
    let base = numbered_table("base", 3);
    let patch = numbered_table("patch", patch_len);
    let expansion = numbered_table("exp", 3);
    let duck_mod = numbered_table("mod", 3);
    let duck_perm = numbered_table("perm", 3);
    m.load(&base, &patch, &expansion, Some(&duck_mod[..]), Some(&duck_perm[..])).unwrap();
    m
}

#[test]
fn bands_resolve_to_their_tables() {
    let m = loaded_manager(10);
    assert_eq!(m.get_string_by_index(0), Some("base0"));
    assert_eq!(m.get_string_by_index(2), Some("base2"));
    assert_eq!(m.get_string_by_index(10000), Some("patch0"));
    assert_eq!(m.get_string_by_index(10009), Some("patch9"));
    assert_eq!(m.get_string_by_index(20000), Some("exp0"));
    assert_eq!(m.get_string_by_index(20001), Some("exp1"));
    assert_eq!(m.get_string_by_index(30000), None);
    assert_eq!(m.get_string_by_index(0xFFFF), None);
}

#[test]
fn patch_band_falls_back_to_entry_500() {
    let m = loaded_manager(501);
    assert_eq!(m.get_string_by_index(15000), Some("patch500"));
    assert_eq!(m.get_string_by_index(10100), Some("patch100"));
    // with only ten patch entries, entry 500 does not exist either
    let m = loaded_manager(10);
    assert_eq!(m.get_string_by_index(15000), None);
}

#[test]
fn out_of_range_ids_are_unresolved() {
    let m = loaded_manager(10);
    assert_eq!(m.get_string_by_index(3), None);
    assert_eq!(m.get_string_by_index(9999), None);
    assert_eq!(m.get_string_by_index(29999), None);
    let empty = StringTableManager::new();
    assert_eq!(empty.get_string_by_index(0), None);
    assert_eq!(empty.get_string_by_index(12345), None);
}

#[test]
fn duck_bands_use_the_legacy_index() {
    let m = loaded_manager(10);
    assert_eq!(m.get_string_by_index(0xFC18), Some("mod0"));
    assert_eq!(m.get_string_by_index(0xFC16), Some("mod2"));
    assert_eq!(m.get_string_by_index(0xFC15), None);
    assert_eq!(m.get_string_by_index(0x86E8), None);
    assert_eq!(m.get_string_by_index(0xFFFE), Some("perm0"));
    assert_eq!(m.get_string_by_index(0xFFFC), Some("perm2"));
    assert_eq!(m.get_string_by_index(0xFC19), None);
}

#[test]
fn failed_load_keeps_the_tables() {
    let mut m = loaded_manager(10);
    let good = numbered_table("new", 2);
    let err = m.load(&good, &good, &[1, 2], None, None).unwrap_err();
    assert_eq!(err, DataError::TruncatedStream);
    assert_eq!(m.get_string_by_index(0), Some("base0"));
    m.load(&good, &good, &good, None, None).unwrap();
    assert_eq!(m.get_string_by_index(0), Some("new0"));
    assert_eq!(m.get_string_by_index(0xFC18), Some("mod0"));
}

#[test]
fn data_tables_manager_starts_empty() {
    let d = DataTblsManager::new();
    assert_eq!(d.weapon.start_index(), 1);
    assert_eq!(d.armor.start_index(), 1001);
    assert_eq!(d.misc.start_index(), 2001);
    assert_eq!(d.get_string_by_index(0), None);
    assert_eq!(d.weapon.records().records().len(), 0);
}

#[test]
fn data_tables_manager_resolves_through_its_string_tables() {
    let mut d = DataTblsManager::new();
    d.strtbl = loaded_manager(10);
    assert_eq!(d.get_string_by_index(10003), Some("patch3"));
}
