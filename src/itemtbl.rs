//! An item table: the records of one item file, numbered from a start index.
use vstd::prelude::*;
use crate::error::DataError;
use crate::record::{BinRecord, table_error};
use crate::schema::Field;

verus! {

pub struct ItemTable {
    start_index: u32,
    records: BinRecord,
}

impl ItemTable {
    pub closed spec fn spec_start_index(&self) -> u32 {
        self.start_index
    }

    pub closed spec fn spec_records(&self) -> BinRecord {
        self.records
    }

    /// An empty table whose first item is numbered `start_index`.
    pub fn new(start_index: u32) -> (r: ItemTable)
        ensures
            r.spec_start_index() == start_index,
            r.spec_records().spec_records().len() == 0,
    {
        ItemTable { start_index, records: BinRecord::new() }
    }

    /// Decodes the table of `schema` stored in `data` and holds its records in place of
    /// those held before. On failure nothing changes.
    pub fn load(&mut self, schema: &Vec<Field>, data: &[u8]) -> (r: Result<&BinRecord, DataError>)
        ensures
            r is Ok <==> table_error(schema@, data@) is None,
            final(self).spec_start_index() == old(self).spec_start_index(),
            match r {
                Ok(t) => *t == final(self).spec_records() && t.decoded_from(schema@, data@),
                Err(e) => table_error(schema@, data@) == Some(e) && *final(self) == *old(self),
            },
    {
        let records = BinRecord::decode(schema, data)?;
        self.records = records;
        Ok(&self.records)
    }

    pub fn start_index(&self) -> (r: u32)
        ensures
            r == self.spec_start_index(),
    {
        self.start_index
    }

    pub fn records(&self) -> (r: &BinRecord)
        ensures
            *r == self.spec_records(),
    {
        &self.records
    }
}

} // verus!
