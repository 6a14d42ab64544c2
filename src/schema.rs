//! Schema fields and the check that their declared offsets are contiguous.
use vstd::prelude::*;
use crate::error::DataError;
use crate::value::Value;

verus! {

/// A named value at a declared byte offset within a record.
#[derive(Debug, Clone)]
pub struct Field {
    pub name: String,
    pub value: Value,
    pub offset: u64,
}

/// The sum of the widths of the first `k` fields: where field `k` starts.
pub open spec fn offset_before(fields: Seq<Field>, k: int) -> nat
    decreases k,
{
    if k <= 0 {
        0
    } else {
        offset_before(fields, k - 1) + fields[k - 1].value.width()
    }
}

/// How many bytes one record of this schema takes.
pub open spec fn schema_width(fields: Seq<Field>) -> nat {
    offset_before(fields, fields.len() as int)
}

/// Field `k` is declared at the sum of the widths before it.
pub open spec fn offset_agrees(fields: Seq<Field>, k: int) -> bool {
    fields[k].offset == offset_before(fields, k)
}

/// Every field is declared at the sum of the widths before it.
pub open spec fn offsets_consistent(fields: Seq<Field>) -> bool {
    forall|k: int| 0 <= k < fields.len() ==> #[trigger] offset_agrees(fields, k)
}

/// The error that names field `k`, its declared offset and the offset it should have.
pub open spec fn mismatch_at(fields: Seq<Field>, k: int) -> DataError {
    DataError::OffsetMismatch {
        name: fields[k].name,
        offset: fields[k].offset,
        expected: offset_before(fields, k) as u128,
    }
}

/// A field that is the first to sit one byte past, or one byte short of, the sum of the
/// widths before it makes the schema inconsistent, and it is the field that the offset
/// check names: no other field meets the description of the error it returns.
pub proof fn lemma_off_by_one_is_named(fields: Seq<Field>, k: int)
    requires
        0 <= k < fields.len(),
        forall|j: int| 0 <= j < k ==> offset_agrees(fields, j),
        fields[k].offset == offset_before(fields, k) + 1 || fields[k].offset + 1 == offset_before(
            fields,
            k,
        ),
    ensures
        !offsets_consistent(fields),
        forall|m: int|
            0 <= m < fields.len() && !offset_agrees(fields, m) && (forall|j: int|
                0 <= j < m ==> offset_agrees(fields, j)) ==> m == k,
{
    assert(!offset_agrees(fields, k));
    assert forall|m: int|
        0 <= m < fields.len() && !offset_agrees(fields, m) && (forall|j: int|
            0 <= j < m ==> offset_agrees(fields, j)) implies m == k by {
        if m < k {
            assert(offset_agrees(fields, m));
        } else if m > k {
            assert(offset_agrees(fields, k));
        }
    }
}

impl Field {
    pub fn new(name: &str, value: Value, offset: u64) -> (f: Field)
        ensures
            f.name@ == name@,
            f.value == value,
            f.offset == offset,
    {
        Field { name: name.to_owned(), value, offset }
    }

    /// Replaces the value with one of the same shape read from `data` at `pos`, and returns
    /// where it ends. On failure the field is unchanged.
    pub fn read(&mut self, data: &[u8], pos: usize) -> (r: Result<usize, DataError>)
        ensures
            r is Ok <==> old(self).value.decode_error(data@, pos as int) is None,
            match r {
                Ok(end) => {
                    &&& end == pos + old(self).value.width()
                    &&& old(self).value.decodes_at(data@, pos as int, final(self).value)
                    &&& final(self).name == old(self).name
                    &&& final(self).offset == old(self).offset
                },
                Err(e) => {
                    &&& old(self).value.decode_error(data@, pos as int) == Some(e)
                    &&& *final(self) == *old(self)
                },
            },
    {
        let w = self.value.byte_width();
        let v = self.value.decode(data, pos)?;
        let len = data.len();
        assert(pos + w <= len);
        self.value = v;
        Ok((pos as u128 + w) as usize)
    }

    /// Checks that each field's declared offset is the sum of the widths of the fields
    /// before it, and names the first field where it is not.
    pub fn validate_fields_offset(fields: &Vec<Field>) -> (r: Result<(), DataError>)
        ensures
            r is Ok <==> offsets_consistent(fields@),
            r matches Err(e) ==> exists|k: int|
                0 <= k < fields@.len() && !offset_agrees(fields@, k) && (forall|j: int|
                    0 <= j < k ==> offset_agrees(fields@, j)) && e == mismatch_at(fields@, k),
    {
        let mut running: u128 = 0;
        let mut i: usize = 0;
        while i < fields.len()
            invariant
                i <= fields@.len(),
                running == offset_before(fields@, i as int),
                forall|j: int| 0 <= j < i ==> offset_agrees(fields@, j),
            decreases fields@.len() - i,
        {
            let f = &fields[i];
            if f.offset as u128 != running {
                assert(!offset_agrees(fields@, i as int));
                return Err(
                    DataError::OffsetMismatch {
                        name: f.name.clone(),
                        offset: f.offset,
                        expected: running,
                    },
                );
            }
            running = running + f.value.byte_width();
            i = i + 1;
        }
        Ok(())
    }
}

} // verus!
