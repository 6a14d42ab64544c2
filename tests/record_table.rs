use datatbls::error::DataError;
use datatbls::itemtbl::ItemTable;
use datatbls::record::{BinRecord, Record};
use datatbls::schema::Field;
use datatbls::value::{new_vec, Value};

fn schema() -> Vec<Field> {
    vec![
        Field::new("id", Value::UInt16(0), 0),
        Field::new("bytes", Value::U8Array(new_vec(4, 0u8)), 2),
    ]
}

fn table_bytes() -> Vec<u8> {
    let mut data = 3u32.to_le_bytes().to_vec();
    data.extend_from_slice(&[0x01, 0x00, 1, 2, 3, 4]);
    data.extend_from_slice(&[0x02, 0x01, 5, 6, 7, 8]);
    data.extend_from_slice(&[0xFF, 0xFF, 9, 10, 11, 12]);
    data
}

#[test]
fn three_records_decode_in_order() {
    let data = table_bytes();
    assert_eq!(data.len(), 4 + 3 * 6);
    let table = BinRecord::decode(&schema(), &data).unwrap();
    assert_eq!(table.records().len(), 3);
    let ids: Vec<u16> =
        table.iter().iter().map(|r| r.get("id").unwrap().value.as_u16().unwrap()).collect();
    assert_eq!(ids, vec![0x0001, 0x0102, 0xFFFF]);
    for (i, rec) in table.iter().iter().enumerate() {
        let names: Vec<&str> = rec.iter().iter().map(|f| f.name.as_str()).collect();
        assert_eq!(names, vec!["id", "bytes"]);
        match &rec.get("bytes").unwrap().value {
            Value::U8Array(a) => {
                let k = 4 * i as u8;
                assert_eq!(a, &vec![k + 1, k + 2, k + 3, k + 4]);
            }
            other => panic!("unexpected {:?}", other),
        }
        assert_eq!(rec.get("bytes").unwrap().offset, 2);
    }
}

#[test]
fn zero_records() {
    let table = BinRecord::decode(&schema(), &[0, 0, 0, 0]).unwrap();
    assert_eq!(table.records().len(), 0);
}

#[test]
fn short_count_is_truncated() {
    assert_eq!(BinRecord::decode(&schema(), &[3, 0, 0]).unwrap_err(), DataError::TruncatedStream);
}

#[test]
fn missing_record_bytes_are_truncated() {
    let mut data = table_bytes();
    data.pop();
    assert_eq!(BinRecord::decode(&schema(), &data).unwrap_err(), DataError::TruncatedStream);
}

#[test]
fn malformed_text_cell_in_a_record() {
    let schema = vec![Field::new("name", Value::Text(2, None), 0)];
    let data = vec![1, 0, 0, 0, 0xC3, 0x28];
    assert_eq!(BinRecord::decode(&schema, &data).unwrap_err(), DataError::MalformedText);
}

#[test]
fn unknown_field_lookup_fails() {
    let rec = Record::from_fields(schema());
    assert_eq!(rec.get("nope").unwrap_err(), DataError::UnknownField("nope".to_string()));
    assert_eq!(rec.get("bytes").unwrap().offset, 2);
}

#[test]
fn new_table_is_empty() {
    assert_eq!(BinRecord::new().records().len(), 0);
    assert!(BinRecord::new().iter().is_empty());
}

#[test]
fn item_table_loads_records() {
    let mut items = ItemTable::new(1001);
    assert_eq!(items.start_index(), 1001);
    assert_eq!(items.records().records().len(), 0);
    assert_eq!(items.load(&schema(), &table_bytes()).unwrap().records().len(), 3);
    assert_eq!(items.records().records().len(), 3);
    assert_eq!(items.load(&schema(), &[9]).unwrap_err(), DataError::TruncatedStream);
    assert_eq!(items.records().records().len(), 3);
    assert_eq!(items.start_index(), 1001);
}
