//! Records and record tables: a 4-byte record count followed by fixed-layout records.
use vstd::prelude::*;
use crate::error::DataError;
use crate::schema::{Field, offset_before, schema_width};
use crate::wire::{read_u32, u32_le};

verus! {

/// One decoded instance of a schema.
#[derive(Debug)]
pub struct Record {
    fields: Vec<Field>,
}

/// The records of one table, in the order they are stored.
#[derive(Debug)]
pub struct BinRecord {
    records: Vec<Record>,
}

/// `out` is schema field `f` decoded from `data` at `pos`: same name and offset, and a
/// value read with the shape of `f`'s.
pub open spec fn field_decoded(f: Field, data: Seq<u8>, pos: int, out: Field) -> bool {
    &&& out.name@ == f.name@
    &&& out.offset == f.offset
    &&& f.value.decodes_at(data, pos, out.value)
}

/// Why decoding schema fields `k..` of the record at `base` fails, or `None`.
pub open spec fn record_error(schema: Seq<Field>, data: Seq<u8>, base: int, k: int) -> Option<
    DataError,
>
    decreases schema.len() - k,
{
    if k < 0 || k >= schema.len() {
        None
    } else {
        match schema[k].value.decode_error(data, base + offset_before(schema, k)) {
            Some(e) => Some(e),
            None => record_error(schema, data, base, k + 1),
        }
    }
}

/// Why decoding `remaining` records from `base` on fails, or `None`.
pub open spec fn records_error(schema: Seq<Field>, data: Seq<u8>, remaining: nat, base: int) -> Option<
    DataError,
>
    decreases remaining,
{
    if remaining == 0 {
        None
    } else {
        match record_error(schema, data, base, 0) {
            Some(e) => Some(e),
            None => records_error(schema, data, (remaining - 1) as nat, base + schema_width(schema)),
        }
    }
}

/// Why decoding a whole table fails, or `None`.
pub open spec fn table_error(schema: Seq<Field>, data: Seq<u8>) -> Option<DataError> {
    if data.len() < 4 {
        Some(DataError::TruncatedStream)
    } else {
        records_error(schema, data, u32_le(data, 0) as nat, 4)
    }
}

impl Record {
    pub closed spec fn spec_fields(&self) -> Seq<Field> {
        self.fields@
    }

    /// `self` is the record of `schema` stored in `data` at `base`.
    pub open spec fn decoded_from(&self, schema: Seq<Field>, data: Seq<u8>, base: int) -> bool {
        &&& self.spec_fields().len() == schema.len()
        &&& forall|k: int|
            0 <= k < schema.len() ==> field_decoded(
                schema[k],
                data,
                base + offset_before(schema, k),
                #[trigger] self.spec_fields()[k],
            )
    }

    pub fn from_fields(fields: Vec<Field>) -> (r: Record)
        ensures
            r.spec_fields() == fields@,
    {
        Record { fields }
    }

    /// The fields in schema order.
    pub fn iter(&self) -> (r: &[Field])
        ensures
            r@ == self.spec_fields(),
    {
        self.fields.as_slice()
    }

    /// The first field named `key`.
    pub fn get(&self, key: &str) -> (r: Result<&Field, DataError>)
        ensures
            match r {
                Ok(f) => exists|k: int|
                    0 <= k < self.spec_fields().len() && self.spec_fields()[k].name@ == key@ && *f
                        == self.spec_fields()[k] && forall|j: int|
                        0 <= j < k ==> self.spec_fields()[j].name@ != key@,
                Err(e) => (e matches DataError::UnknownField(n) && n@ == key@) && forall|k: int|
                    0 <= k < self.spec_fields().len() ==> self.spec_fields()[k].name@ != key@,
            },
    {
        let wanted: String = key.to_owned();
        let mut i: usize = 0;
        while i < self.fields.len()
            invariant
                i <= self.fields@.len(),
                wanted@ == key@,
                forall|j: int| 0 <= j < i ==> self.fields@[j].name@ != key@,
            decreases self.fields@.len() - i,
        {
            if self.fields[i].name == wanted {
                return Ok(&self.fields[i]);
            }
            i = i + 1;
        }
        Err(DataError::UnknownField(wanted))
    }
}

/// Every record of a decoded table has the schema's field names in the schema's order, each
/// with a value of the shape the schema gives it; only the decoded contents differ.
pub proof fn lemma_records_share_layout(
    t: BinRecord,
    schema: Seq<Field>,
    data: Seq<u8>,
    i: int,
    j: int,
)
    requires
        t.decoded_from(schema, data),
        0 <= i < t.spec_records().len(),
        0 <= j < t.spec_records().len(),
    ensures
        t.spec_records()[i].spec_fields().len() == schema.len(),
        t.spec_records()[j].spec_fields().len() == schema.len(),
        forall|k: int|
            0 <= k < schema.len() ==> {
                &&& (#[trigger] t.spec_records()[i].spec_fields()[k]).name@
                    == t.spec_records()[j].spec_fields()[k].name@
                &&& schema[k].value.same_shape(t.spec_records()[i].spec_fields()[k].value)
                &&& schema[k].value.same_shape(t.spec_records()[j].spec_fields()[k].value)
            },
{
    let w = schema_width(schema);
    assert(t.spec_records()[i].decoded_from(schema, data, 4 + i * w));
    assert(t.spec_records()[j].decoded_from(schema, data, 4 + j * w));
}

/// Decodes the record of `schema` stored in `data` at `base`, field by field in schema order.
/// On success also returns where the record ends.
fn decode_record(schema: &Vec<Field>, data: &[u8], base: usize) -> (r: Result<(Record, usize), DataError>)
    requires
        base <= data@.len(),
    ensures
        r is Ok <==> record_error(schema@, data@, base as int, 0) is None,
        match r {
            Ok((rec, end)) => rec.decoded_from(schema@, data@, base as int) && end == base
                + schema_width(schema@) && end <= data@.len(),
            Err(e) => record_error(schema@, data@, base as int, 0) == Some(e),
        },
{
    let mut fields: Vec<Field> = Vec::new();
    let mut p: usize = base;
    let mut k: usize = 0;
    let len = data.len();
    while k < schema.len()
        invariant
            len == data@.len(),
            k <= schema@.len(),
            p == base + offset_before(schema@, k as int),
            p <= data@.len(),
            record_error(schema@, data@, base as int, 0) == record_error(
                schema@,
                data@,
                base as int,
                k as int,
            ),
            fields@.len() == k,
            forall|j: int|
                0 <= j < k ==> field_decoded(
                    schema@[j],
                    data@,
                    base + offset_before(schema@, j),
                    #[trigger] fields@[j],
                ),
        decreases schema@.len() - k,
    {
        let f = &schema[k];
        match f.value.decode(data, p) {
            Ok(v) => {
                let w = f.value.byte_width();
                assert(p + f.value.width() <= data@.len());
                assert(offset_before(schema@, k + 1) == offset_before(schema@, k as int)
                    + schema@[k as int].value.width());
                fields.push(Field { name: f.name.clone(), value: v, offset: f.offset });
                p = (p as u128 + w) as usize;
                k = k + 1;
            },
            Err(e) => {
                return Err(e);
            },
        }
    }
    Ok((Record { fields }, p))
}

impl BinRecord {
    pub closed spec fn spec_records(&self) -> Seq<Record> {
        self.records@
    }

    /// `self` holds the table of `schema` stored in `data`: as many records as the leading
    /// count says, record `i` decoded from its place after the `i` records before it, all
    /// of them within `data`.
    pub open spec fn decoded_from(&self, schema: Seq<Field>, data: Seq<u8>) -> bool {
        &&& data.len() >= 4
        &&& self.spec_records().len() == u32_le(data, 0)
        &&& 4 + self.spec_records().len() * schema_width(schema) <= data.len()
        &&& forall|i: int|
            0 <= i < self.spec_records().len() ==> (#[trigger] self.spec_records()[i]).decoded_from(
                schema,
                data,
                4 + i * schema_width(schema),
            )
    }

    pub fn new() -> (r: BinRecord)
        ensures
            r.spec_records().len() == 0,
    {
        BinRecord { records: Vec::new() }
    }

    /// The records in stored order.
    pub fn iter(&self) -> (r: &[Record])
        ensures
            r@ == self.spec_records(),
    {
        self.records.as_slice()
    }

    pub fn records(&self) -> (r: &Vec<Record>)
        ensures
            r@ == self.spec_records(),
    {
        &self.records
    }

    /// Decodes a table of `schema`: a little-endian record count, then that many records.
    /// The schema's declared offsets are not consulted; decoding is sequential.
    pub fn decode(schema: &Vec<Field>, data: &[u8]) -> (r: Result<BinRecord, DataError>)
        ensures
            r is Ok <==> table_error(schema@, data@) is None,
            match r {
                Ok(t) => t.decoded_from(schema@, data@),
                Err(e) => table_error(schema@, data@) == Some(e),
            },
    {
        if data.len() < 4 {
            return Err(DataError::TruncatedStream);
        }
        let count = read_u32(data, 0);
        let ghost w = schema_width(schema@);
        let mut records: Vec<Record> = Vec::new();
        let mut base: usize = 4;
        let mut i: u32 = 0;
        while i < count
            invariant
                i <= count,
                count == u32_le(data@, 0),
                w == schema_width(schema@),
                base == 4 + i * w,
                base <= data@.len(),
                table_error(schema@, data@) == records_error(
                    schema@,
                    data@,
                    (count - i) as nat,
                    base as int,
                ),
                records@.len() == i,
                forall|j: int|
                    0 <= j < i ==> (#[trigger] records@[j]).decoded_from(
                        schema@,
                        data@,
                        4 + j * w,
                    ),
            decreases count - i,
        {
            match decode_record(schema, data, base) {
                Ok((rec, end)) => {
                    proof {
                        assert(4 + (i + 1) * w == 4 + i * w + w) by (nonlinear_arith);
                    }
                    records.push(rec);
                    base = end;
                    i = i + 1;
                },
                Err(e) => {
                    return Err(e);
                },
            }
        }
        Ok(BinRecord { records })
    }
}

} // verus!
