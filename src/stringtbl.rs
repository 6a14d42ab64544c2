//! Indexed string tables: a header, an indirection array into hash-bucket slots of
//! 17 bytes, and NUL-terminated key and value strings addressed from the start of the data.
use vstd::prelude::*;
use crate::error::DataError;
use crate::wire::{
    copy_escaping_newlines, escape_newlines, nul_terminated, read_nul_terminated, read_u16,
    read_u32, read_u8, string_from_utf8, u16_le, u32_le, utf8_text,
};

verus! {

/// Bytes taken by the header.
pub const HEADER_SIZE: usize = 21;

/// Bytes taken by one entry slot.
pub const SLOT_SIZE: usize = 17;

/// The fixed header at the start of a string table.
#[derive(Debug, Clone, Copy)]
pub struct StringTableHeader {
    pub crc: u16,
    pub count: u16,
    pub hash_table_size: u32,
    pub unknown_08: u8,
    pub string_start_offset: u32,
    pub max_miss_times: u32,
    pub string_end_offset: u32,
}

/// One key and its value; newlines in the value are written as a backslash and an `n`.
#[derive(Debug, Clone)]
pub struct StringTableEntry {
    pub key: String,
    pub value: String,
}

/// The declared number of entries.
pub open spec fn entry_count(data: Seq<u8>) -> int {
    u16_le(data, 2) as int
}

/// Where the entry slots begin: right after the indirection array.
pub open spec fn node_start(data: Seq<u8>) -> int {
    HEADER_SIZE + 2 * entry_count(data)
}

/// Where the slot of logical entry `i` lies, by the indirection array.
pub open spec fn slot_pos(data: Seq<u8>, i: int) -> int {
    node_start(data) + SLOT_SIZE * u16_le(data, HEADER_SIZE + 2 * i)
}

pub open spec fn key_offset(data: Seq<u8>, i: int) -> int {
    u32_le(data, slot_pos(data, i) + 7) as int
}

pub open spec fn value_offset(data: Seq<u8>, i: int) -> int {
    u32_le(data, slot_pos(data, i) + 11) as int
}

/// The text of value bytes `v`, each newline written as a backslash and an `n`.
pub open spec fn escaped_value_text(v: Seq<u8>) -> Option<Seq<char>> {
    utf8_text(escape_newlines(v))
}

/// Why decoding logical entry `i` fails, or `None`.
pub open spec fn entry_error(data: Seq<u8>, i: int) -> Option<DataError> {
    if slot_pos(data, i) + SLOT_SIZE > data.len() {
        Some(DataError::TruncatedStream)
    } else {
        match nul_terminated(data, key_offset(data, i)) {
            None => Some(DataError::TruncatedStream),
            Some(k) => if utf8_text(k) is None {
                Some(DataError::MalformedText)
            } else {
                match nul_terminated(data, value_offset(data, i)) {
                    None => Some(DataError::TruncatedStream),
                    Some(v) => if escaped_value_text(v) is None {
                        Some(DataError::MalformedText)
                    } else {
                        None
                    },
                }
            },
        }
    }
}

/// `e` is logical entry `i` of the table in `data`.
pub open spec fn entry_decoded(data: Seq<u8>, i: int, e: StringTableEntry) -> bool {
    &&& slot_pos(data, i) + SLOT_SIZE <= data.len()
    &&& nul_terminated(data, key_offset(data, i)) matches Some(k) && utf8_text(k) == Some(e.key@)
    &&& nul_terminated(data, value_offset(data, i)) matches Some(v) && escaped_value_text(v)
        == Some(e.value@)
}

/// The first error among entries `i..count`, or `None`.
pub open spec fn entries_error(data: Seq<u8>, i: int) -> Option<DataError>
    decreases entry_count(data) - i,
{
    if i < 0 || i >= entry_count(data) {
        None
    } else {
        match entry_error(data, i) {
            Some(e) => Some(e),
            None => entries_error(data, i + 1),
        }
    }
}

/// Why decoding the table in `data` fails, or `None`.
pub open spec fn string_table_error(data: Seq<u8>) -> Option<DataError> {
    if data.len() < HEADER_SIZE || node_start(data) > data.len() {
        Some(DataError::TruncatedStream)
    } else {
        entries_error(data, 0)
    }
}

/// `entries` are the entries of the table in `data`, in logical order.
pub open spec fn string_table_decoded(data: Seq<u8>, entries: Seq<StringTableEntry>) -> bool {
    &&& data.len() >= HEADER_SIZE
    &&& node_start(data) <= data.len()
    &&& entries.len() == entry_count(data)
    &&& forall|i: int| 0 <= i < entries.len() ==> entry_decoded(data, i, #[trigger] entries[i])
}

impl StringTableHeader {
    /// Reads the header at the start of `data`.
    pub fn read(data: &[u8]) -> (r: Result<StringTableHeader, DataError>)
        ensures
            r is Ok <==> data@.len() >= HEADER_SIZE,
            r matches Ok(h) ==> {
                &&& h.crc == u16_le(data@, 0)
                &&& h.count == u16_le(data@, 2)
                &&& h.hash_table_size == u32_le(data@, 4)
                &&& h.unknown_08 == data@[8]
                &&& h.string_start_offset == u32_le(data@, 9)
                &&& h.max_miss_times == u32_le(data@, 13)
                &&& h.string_end_offset == u32_le(data@, 17)
            },
            r matches Err(e) ==> e == DataError::TruncatedStream,
    {
        if data.len() < HEADER_SIZE {
            return Err(DataError::TruncatedStream);
        }
        Ok(
            StringTableHeader {
                crc: read_u16(data, 0),
                count: read_u16(data, 2),
                hash_table_size: read_u32(data, 4),
                unknown_08: read_u8(data, 8),
                string_start_offset: read_u32(data, 9),
                max_miss_times: read_u32(data, 13),
                string_end_offset: read_u32(data, 17),
            },
        )
    }
}

/// Decodes logical entry `i`, whose slot is found through the indirection array.
fn decode_entry(data: &[u8], i: usize) -> (r: Result<StringTableEntry, DataError>)
    requires
        data@.len() >= HEADER_SIZE,
        node_start(data@) <= data@.len(),
        i < entry_count(data@),
    ensures
        r is Ok <==> entry_error(data@, i as int) is None,
        match r {
            Ok(e) => entry_decoded(data@, i as int, e),
            Err(e) => entry_error(data@, i as int) == Some(e),
        },
{
    let count = read_u16(data, 2) as usize;
    let bucket = read_u16(data, HEADER_SIZE + 2 * i) as usize;
    let slot = HEADER_SIZE + 2 * count + SLOT_SIZE * bucket;
    if slot + SLOT_SIZE > data.len() {
        return Err(DataError::TruncatedStream);
    }
    let key_off = read_u32(data, slot + 7) as usize;
    let val_off = read_u32(data, slot + 11) as usize;
    let key_bytes = match read_nul_terminated(data, key_off) {
        Some(b) => b,
        None => {
            return Err(DataError::TruncatedStream);
        },
    };
    let key = match string_from_utf8(key_bytes) {
        Some(s) => s,
        None => {
            return Err(DataError::MalformedText);
        },
    };
    let val_bytes = match read_nul_terminated(data, val_off) {
        Some(b) => b,
        None => {
            return Err(DataError::TruncatedStream);
        },
    };
    let escaped = copy_escaping_newlines(&val_bytes);
    let value = match string_from_utf8(escaped) {
        Some(s) => s,
        None => {
            return Err(DataError::MalformedText);
        },
    };
    Ok(StringTableEntry { key, value })
}

/// Decodes a string table into its entries in logical order `0..count`, each found through
/// the indirection array rather than in stored order.
pub fn decode_string_table(data: &[u8]) -> (r: Result<Vec<StringTableEntry>, DataError>)
    ensures
        r is Ok <==> string_table_error(data@) is None,
        match r {
            Ok(entries) => string_table_decoded(data@, entries@),
            Err(e) => string_table_error(data@) == Some(e),
        },
{
    let header = StringTableHeader::read(data);
    let count = match header {
        Ok(h) => h.count as usize,
        Err(e) => {
            return Err(e);
        },
    };
    if HEADER_SIZE + 2 * count > data.len() {
        return Err(DataError::TruncatedStream);
    }
    let mut entries: Vec<StringTableEntry> = Vec::new();
    let mut i: usize = 0;
    while i < count
        invariant
            count == entry_count(data@),
            data@.len() >= HEADER_SIZE,
            node_start(data@) <= data@.len(),
            i <= count,
            string_table_error(data@) == entries_error(data@, i as int),
            entries@.len() == i,
            forall|j: int| 0 <= j < i ==> entry_decoded(data@, j, #[trigger] entries@[j]),
        decreases count - i,
    {
        match decode_entry(data, i) {
            Ok(e) => {
                entries.push(e);
            },
            Err(e) => {
                return Err(e);
            },
        }
        i = i + 1;
    }
    Ok(entries)
}

/// The five string tables that global string ids address. A table that was never loaded
/// is empty, and every index into it is out of range.
pub struct StringTableManager {
    string: Vec<StringTableEntry>,
    patchstring: Vec<StringTableEntry>,
    expansionstring: Vec<StringTableEntry>,
    duckmodstring: Vec<StringTableEntry>,
    duckpermstring: Vec<StringTableEntry>,
}

/// The value text of entry `i` of `table`, or `None` where `i` is out of range.
pub open spec fn entry_text(table: Seq<StringTableEntry>, i: int) -> Option<Seq<char>> {
    if 0 <= i < table.len() {
        Some(table[i].value@)
    } else {
        None
    }
}

/// Why decoding `data`, where it is given, fails.
pub open spec fn optional_table_error(data: Option<&[u8]>) -> Option<DataError> {
    match data {
        Some(d) => string_table_error(d@),
        None => None,
    }
}

/// The error of the first of these tables, in order, that does not decode, or `None`.
pub open spec fn load_error(
    string: &[u8],
    patchstring: &[u8],
    expansionstring: &[u8],
    duckmodstring: Option<&[u8]>,
    duckpermstring: Option<&[u8]>,
) -> Option<DataError> {
    if string_table_error(string@) is Some {
        string_table_error(string@)
    } else if string_table_error(patchstring@) is Some {
        string_table_error(patchstring@)
    } else if string_table_error(expansionstring@) is Some {
        string_table_error(expansionstring@)
    } else if optional_table_error(duckmodstring) is Some {
        optional_table_error(duckmodstring)
    } else {
        optional_table_error(duckpermstring)
    }
}

impl StringTableManager {
    pub closed spec fn base(&self) -> Seq<StringTableEntry> {
        self.string@
    }

    pub closed spec fn patch(&self) -> Seq<StringTableEntry> {
        self.patchstring@
    }

    pub closed spec fn expansion(&self) -> Seq<StringTableEntry> {
        self.expansionstring@
    }

    pub closed spec fn duck_mod(&self) -> Seq<StringTableEntry> {
        self.duckmodstring@
    }

    pub closed spec fn duck_perm(&self) -> Seq<StringTableEntry> {
        self.duckpermstring@
    }

    /// The text that global string id `id` resolves to, by band:
    /// `0..=9999` the base table at `id`; `10000..=19999` the patch table at `id - 10000`,
    /// or at 500 where that is out of range; `20000..=29999` the expansion table at
    /// `id - 20000`; `0x86E8..=0xFC18` the duck-mod table and `0xFC19..=0xFFFE` the
    /// duck-perm table, at the negation of `id` read as a signed 16-bit integer, less 1000
    /// and 2 respectively. Anything else, and any index out of range, is unresolved.
    pub open spec fn resolve(&self, id: u16) -> Option<Seq<char>> {
        if id <= 9999 {
            entry_text(self.base(), id as int)
        } else if id <= 19999 {
            if id - 10000 < self.patch().len() {
                entry_text(self.patch(), id - 10000)
            } else {
                entry_text(self.patch(), 500)
            }
        } else if id <= 29999 {
            entry_text(self.expansion(), id - 20000)
        } else if 0x86E8 <= id <= 0xFC18 {
            entry_text(self.duck_mod(), 0x10000 - 1000 - id)
        } else if 0xFC19 <= id <= 0xFFFE {
            entry_text(self.duck_perm(), 0x10000 - 2 - id)
        } else {
            None
        }
    }

    pub fn new() -> (r: StringTableManager)
        ensures
            r.base().len() == 0,
            r.patch().len() == 0,
            r.expansion().len() == 0,
            r.duck_mod().len() == 0,
            r.duck_perm().len() == 0,
    {
        StringTableManager {
            string: Vec::new(),
            patchstring: Vec::new(),
            expansionstring: Vec::new(),
            duckmodstring: Vec::new(),
            duckpermstring: Vec::new(),
        }
    }

    /// Decodes the base, patch and expansion tables and, where given, the duck-mod and
    /// duck-perm tables. On success each given table replaces the one held; a table not
    /// given is kept. On failure nothing changes, and the error is that of the first table,
    /// in that order, that does not decode.
    pub fn load(
        &mut self,
        string: &[u8],
        patchstring: &[u8],
        expansionstring: &[u8],
        duckmodstring: Option<&[u8]>,
        duckpermstring: Option<&[u8]>,
    ) -> (r: Result<(), DataError>)
        ensures
            r is Ok <==> load_error(string, patchstring, expansionstring, duckmodstring, duckpermstring)
                is None,
            r is Ok ==> {
                &&& string_table_decoded(string@, final(self).base())
                &&& string_table_decoded(patchstring@, final(self).patch())
                &&& string_table_decoded(expansionstring@, final(self).expansion())
                &&& match duckmodstring {
                    Some(d) => string_table_decoded(d@, final(self).duck_mod()),
                    None => final(self).duck_mod() == old(self).duck_mod(),
                }
                &&& match duckpermstring {
                    Some(d) => string_table_decoded(d@, final(self).duck_perm()),
                    None => final(self).duck_perm() == old(self).duck_perm(),
                }
            },
            r matches Err(e) ==> *final(self) == *old(self) && load_error(
                string,
                patchstring,
                expansionstring,
                duckmodstring,
                duckpermstring,
            ) == Some(e),
    {
        let base = decode_string_table(string)?;
        let patch = decode_string_table(patchstring)?;
        let expansion = decode_string_table(expansionstring)?;
        let duck_mod = match duckmodstring {
            Some(d) => Some(decode_string_table(d)?),
            None => None,
        };
        let duck_perm = match duckpermstring {
            Some(d) => Some(decode_string_table(d)?),
            None => None,
        };
        self.string = base;
        self.patchstring = patch;
        self.expansionstring = expansion;
        if let Some(t) = duck_mod {
            self.duckmodstring = t;
        }
        if let Some(t) = duck_perm {
            self.duckpermstring = t;
        }
        Ok(())
    }

    /// The text that global string id `index` resolves to.
    pub fn get_string_by_index(&self, index: u16) -> (r: Option<&str>)
        ensures
            match r {
                Some(s) => self.resolve(index) == Some(s@),
                None => self.resolve(index) is None,
            },
    {
        if index <= 9999 {
            Self::entry_str(&self.string, index as usize)
        } else if index <= 19999 {
            self.get_string_from_tbl(&self.patchstring, (index - 10000) as usize)
        } else if index <= 29999 {
            Self::entry_str(&self.expansionstring, (index - 20000) as usize)
        } else if 0x86E8 <= index && index <= 0xFC18 {
            Self::entry_str(&self.duckmodstring, (0xFC18 - index) as usize)
        } else if 0xFC19 <= index && index <= 0xFFFE {
            Self::entry_str(&self.duckpermstring, (0xFFFE - index) as usize)
        } else {
            None
        }
    }

    /// Entry `index` of the patch table, or entry 500 where `index` is out of range.
    fn get_string_from_tbl<'a>(&self, str_tbl: &'a Vec<StringTableEntry>, index: usize) -> (r:
        Option<&'a str>)
        ensures
            match r {
                Some(s) => (if index < str_tbl@.len() {
                    entry_text(str_tbl@, index as int)
                } else {
                    entry_text(str_tbl@, 500)
                }) == Some(s@),
                None => index >= str_tbl@.len() && entry_text(str_tbl@, 500) is None,
            },
    {
        let mut index = index;
        if index >= str_tbl.len() {
            index = 500;
        }
        Self::entry_str(str_tbl, index)
    }

    fn entry_str<'a>(table: &'a Vec<StringTableEntry>, index: usize) -> (r: Option<&'a str>)
        ensures
            match r {
                Some(s) => entry_text(table@, index as int) == Some(s@),
                None => entry_text(table@, index as int) is None,
            },
    {
        if index < table.len() {
            Some(table[index].value.as_str())
        } else {
            None
        }
    }
}

} // verus!
