//! The value model: one decoded scalar, fixed-capacity array or text cell.
use vstd::prelude::*;
use crate::error::DataError;
use crate::wire::{
    i16_le, i32_le, i8_at, read_i16, read_i32, read_i8, read_u16, read_u32, read_u8,
    string_from_utf8, copy_trimmed, trim_nul_end, u16_le, u32_le, utf8_text,
};

verus! {

/// One field value. The variant fixes how many bytes it takes on the wire; an array's
/// capacity is its length, and a text cell carries its declared byte length.
#[derive(Debug, Clone)]
pub enum Value {
    Int8(i8),
    Int16(i16),
    Int32(i32),
    UInt8(u8),
    UInt16(u16),
    UInt32(u32),
    I8Array(Vec<i8>),
    I16Array(Vec<i16>),
    I32Array(Vec<i32>),
    U8Array(Vec<u8>),
    U16Array(Vec<u16>),
    U32Array(Vec<u32>),
    /// An index into the string tables, resolved later.
    StringId(u16),
    /// Four ASCII bytes packed into a little-endian integer.
    ItemCode(u32),
    /// A text cell of the given byte length; `None` until decoded.
    Text(usize, Option<String>),
}

/// The four bytes of `v`, least significant first.
pub open spec fn le_bytes(v: u32) -> Seq<u8> {
    seq![
        (v % 256) as u8,
        ((v / 256) % 256) as u8,
        ((v / 65536) % 256) as u8,
        (v / 16777216) as u8,
    ]
}

impl Value {
    /// How many bytes this value takes on the wire.
    pub open spec fn width(&self) -> nat {
        match self {
            Value::Int8(_) | Value::UInt8(_) => 1,
            Value::Int16(_) | Value::UInt16(_) | Value::StringId(_) => 2,
            Value::Int32(_) | Value::UInt32(_) | Value::ItemCode(_) => 4,
            Value::I8Array(a) => a@.len(),
            Value::U8Array(a) => a@.len(),
            Value::I16Array(a) => 2 * a@.len(),
            Value::U16Array(a) => 2 * a@.len(),
            Value::I32Array(a) => 4 * a@.len(),
            Value::U32Array(a) => 4 * a@.len(),
            Value::Text(n, _) => *n as nat,
        }
    }

    /// Whether the variant of `self` and `other` is the same, and for arrays and text
    /// cells also the capacity.
    pub open spec fn same_shape(&self, other: Value) -> bool {
        &&& self.width() == other.width()
        &&& match (*self, other) {
            (Value::Int8(_), Value::Int8(_)) => true,
            (Value::Int16(_), Value::Int16(_)) => true,
            (Value::Int32(_), Value::Int32(_)) => true,
            (Value::UInt8(_), Value::UInt8(_)) => true,
            (Value::UInt16(_), Value::UInt16(_)) => true,
            (Value::UInt32(_), Value::UInt32(_)) => true,
            (Value::I8Array(_), Value::I8Array(_)) => true,
            (Value::I16Array(_), Value::I16Array(_)) => true,
            (Value::I32Array(_), Value::I32Array(_)) => true,
            (Value::U8Array(_), Value::U8Array(_)) => true,
            (Value::U16Array(_), Value::U16Array(_)) => true,
            (Value::U32Array(_), Value::U32Array(_)) => true,
            (Value::StringId(_), Value::StringId(_)) => true,
            (Value::ItemCode(_), Value::ItemCode(_)) => true,
            (Value::Text(_, _), Value::Text(_, _)) => true,
            _ => false,
        }
    }

    /// `out` is what the bytes of `data` from `pos` on decode to, read with the shape of `self`.
    pub open spec fn decodes_at(&self, data: Seq<u8>, pos: int, out: Value) -> bool {
        &&& self.same_shape(out)
        &&& match out {
            Value::Int8(v) => v == i8_at(data, pos),
            Value::Int16(v) => v == i16_le(data, pos),
            Value::Int32(v) => v == i32_le(data, pos),
            Value::UInt8(v) => v == data[pos],
            Value::UInt16(v) => v == u16_le(data, pos),
            Value::UInt32(v) => v == u32_le(data, pos),
            Value::I8Array(a) => forall|i: int| 0 <= i < a@.len() ==> a@[i] == i8_at(data, pos + i),
            Value::U8Array(a) => forall|i: int| 0 <= i < a@.len() ==> a@[i] == data[pos + i],
            Value::I16Array(a) => forall|i: int|
                0 <= i < a@.len() ==> a@[i] == i16_le(data, pos + 2 * i),
            Value::U16Array(a) => forall|i: int|
                0 <= i < a@.len() ==> a@[i] == u16_le(data, pos + 2 * i),
            Value::I32Array(a) => forall|i: int|
                0 <= i < a@.len() ==> a@[i] == i32_le(data, pos + 4 * i),
            Value::U32Array(a) => forall|i: int|
                0 <= i < a@.len() ==> a@[i] == u32_le(data, pos + 4 * i),
            Value::StringId(v) => v == u16_le(data, pos),
            Value::ItemCode(v) => v == u32_le(data, pos),
            Value::Text(_, s) => s matches Some(t) && utf8_text(
                trim_nul_end(data.subrange(pos, pos + self.width())),
            ) == Some(t@),
        }
    }

    /// Why reading `self`'s shape from `data` at `pos` fails, or `None` where it succeeds.
    pub open spec fn decode_error(&self, data: Seq<u8>, pos: int) -> Option<DataError> {
        if pos + self.width() > data.len() {
            Some(DataError::TruncatedStream)
        } else if self is Text && utf8_text(trim_nul_end(data.subrange(pos, pos + self.width())))
            is None {
            Some(DataError::MalformedText)
        } else {
            None
        }
    }
}

fn read_i8_array(data: &[u8], pos: usize, n: usize) -> (r: Vec<i8>)
    requires
        pos + n <= data@.len(),
    ensures
        r@.len() == n,
        forall|i: int| 0 <= i < n ==> r@[i] == i8_at(data@, pos + i),
{
    let mut r: Vec<i8> = Vec::new();
    let mut i: usize = 0;
    let len = data.len();
    while i < n
        invariant
            i <= n,
            len == data@.len(),
            pos + n <= data@.len(),
            r@.len() == i,
            forall|k: int| 0 <= k < i ==> r@[k] == i8_at(data@, pos + k),
        decreases n - i,
    {
        r.push(read_i8(data, pos + i));
        i = i + 1;
    }
    r
}

fn read_u8_array(data: &[u8], pos: usize, n: usize) -> (r: Vec<u8>)
    requires
        pos + n <= data@.len(),
    ensures
        r@.len() == n,
        forall|i: int| 0 <= i < n ==> r@[i] == data@[pos + i],
{
    let mut r: Vec<u8> = Vec::new();
    let mut i: usize = 0;
    let len = data.len();
    while i < n
        invariant
            i <= n,
            len == data@.len(),
            pos + n <= data@.len(),
            r@.len() == i,
            forall|k: int| 0 <= k < i ==> r@[k] == data@[pos + k],
        decreases n - i,
    {
        r.push(read_u8(data, pos + i));
        i = i + 1;
    }
    r
}

fn read_i16_array(data: &[u8], pos: usize, n: usize) -> (r: Vec<i16>)
    requires
        pos + 2 * n <= data@.len(),
    ensures
        r@.len() == n,
        forall|i: int| 0 <= i < n ==> r@[i] == i16_le(data@, pos + 2 * i),
{
    let mut r: Vec<i16> = Vec::new();
    let mut i: usize = 0;
    let len = data.len();
    while i < n
        invariant
            i <= n,
            len == data@.len(),
            pos + 2 * n <= data@.len(),
            r@.len() == i,
            forall|k: int| 0 <= k < i ==> r@[k] == i16_le(data@, pos + 2 * k),
        decreases n - i,
    {
        r.push(read_i16(data, pos + 2 * i));
        i = i + 1;
    }
    r
}

fn read_u16_array(data: &[u8], pos: usize, n: usize) -> (r: Vec<u16>)
    requires
        pos + 2 * n <= data@.len(),
    ensures
        r@.len() == n,
        forall|i: int| 0 <= i < n ==> r@[i] == u16_le(data@, pos + 2 * i),
{
    let mut r: Vec<u16> = Vec::new();
    let mut i: usize = 0;
    let len = data.len();
    while i < n
        invariant
            i <= n,
            len == data@.len(),
            pos + 2 * n <= data@.len(),
            r@.len() == i,
            forall|k: int| 0 <= k < i ==> r@[k] == u16_le(data@, pos + 2 * k),
        decreases n - i,
    {
        r.push(read_u16(data, pos + 2 * i));
        i = i + 1;
    }
    r
}

fn read_i32_array(data: &[u8], pos: usize, n: usize) -> (r: Vec<i32>)
    requires
        pos + 4 * n <= data@.len(),
    ensures
        r@.len() == n,
        forall|i: int| 0 <= i < n ==> r@[i] == i32_le(data@, pos + 4 * i),
{
    let mut r: Vec<i32> = Vec::new();
    let mut i: usize = 0;
    let len = data.len();
    while i < n
        invariant
            i <= n,
            len == data@.len(),
            pos + 4 * n <= data@.len(),
            r@.len() == i,
            forall|k: int| 0 <= k < i ==> r@[k] == i32_le(data@, pos + 4 * k),
        decreases n - i,
    {
        r.push(read_i32(data, pos + 4 * i));
        i = i + 1;
    }
    r
}

fn read_u32_array(data: &[u8], pos: usize, n: usize) -> (r: Vec<u32>)
    requires
        pos + 4 * n <= data@.len(),
    ensures
        r@.len() == n,
        forall|i: int| 0 <= i < n ==> r@[i] == u32_le(data@, pos + 4 * i),
{
    let mut r: Vec<u32> = Vec::new();
    let mut i: usize = 0;
    let len = data.len();
    while i < n
        invariant
            i <= n,
            len == data@.len(),
            pos + 4 * n <= data@.len(),
            r@.len() == i,
            forall|k: int| 0 <= k < i ==> r@[k] == u32_le(data@, pos + 4 * k),
        decreases n - i,
    {
        r.push(read_u32(data, pos + 4 * i));
        i = i + 1;
    }
    r
}

impl Value {
    pub fn byte_width(&self) -> (w: u128)
        ensures
            w == self.width(),
            w <= 4 * usize::MAX,
    {
        match self {
            Value::Int8(_) | Value::UInt8(_) => 1,
            Value::Int16(_) | Value::UInt16(_) | Value::StringId(_) => 2,
            Value::Int32(_) | Value::UInt32(_) | Value::ItemCode(_) => 4,
            Value::I8Array(a) => a.len() as u128,
            Value::U8Array(a) => a.len() as u128,
            Value::I16Array(a) => 2 * a.len() as u128,
            Value::U16Array(a) => 2 * a.len() as u128,
            Value::I32Array(a) => 4 * a.len() as u128,
            Value::U32Array(a) => 4 * a.len() as u128,
            Value::Text(n, _) => *n as u128,
        }
    }

    /// Reads a fresh value of `self`'s shape from `data` at `pos`.
    pub fn decode(&self, data: &[u8], pos: usize) -> (r: Result<Value, DataError>)
        ensures
            r is Ok <==> self.decode_error(data@, pos as int) is None,
            match r {
                Ok(v) => self.decodes_at(data@, pos as int, v),
                Err(e) => self.decode_error(data@, pos as int) == Some(e),
            },
    {
        let w = self.byte_width();
        if pos as u128 + w > data.len() as u128 {
            return Err(DataError::TruncatedStream);
        }
        let v = match self {
            Value::Int8(_) => Value::Int8(read_i8(data, pos)),
            Value::Int16(_) => Value::Int16(read_i16(data, pos)),
            Value::Int32(_) => Value::Int32(read_i32(data, pos)),
            Value::UInt8(_) => Value::UInt8(read_u8(data, pos)),
            Value::UInt16(_) => Value::UInt16(read_u16(data, pos)),
            Value::UInt32(_) => Value::UInt32(read_u32(data, pos)),
            Value::I8Array(a) => Value::I8Array(read_i8_array(data, pos, a.len())),
            Value::U8Array(a) => Value::U8Array(read_u8_array(data, pos, a.len())),
            Value::I16Array(a) => Value::I16Array(read_i16_array(data, pos, a.len())),
            Value::U16Array(a) => Value::U16Array(read_u16_array(data, pos, a.len())),
            Value::I32Array(a) => Value::I32Array(read_i32_array(data, pos, a.len())),
            Value::U32Array(a) => Value::U32Array(read_u32_array(data, pos, a.len())),
            Value::StringId(_) => Value::StringId(read_u16(data, pos)),
            Value::ItemCode(_) => Value::ItemCode(read_u32(data, pos)),
            Value::Text(n, _) => {
                let bytes = copy_trimmed(data, pos, pos + *n);
                match string_from_utf8(bytes) {
                    Some(s) => Value::Text(*n, Some(s)),
                    None => {
                        return Err(DataError::MalformedText);
                    },
                }
            },
        };
        Ok(v)
    }
}

impl Value {
    /// The integer of a `Int8` value.
    pub fn as_i8(&self) -> (r: Result<i8, DataError>)
        ensures
            match self {
                Value::Int8(v) => r == Ok::<i8, DataError>(*v),
                _ => r == Err::<i8, DataError>(DataError::TypeMismatch),
            },
    {
        match self {
            Value::Int8(v) => Ok(*v),
            _ => Err(DataError::TypeMismatch),
        }
    }

    /// The integer of a `Int16` value.
    pub fn as_i16(&self) -> (r: Result<i16, DataError>)
        ensures
            match self {
                Value::Int16(v) => r == Ok::<i16, DataError>(*v),
                _ => r == Err::<i16, DataError>(DataError::TypeMismatch),
            },
    {
        match self {
            Value::Int16(v) => Ok(*v),
            _ => Err(DataError::TypeMismatch),
        }
    }

    /// The integer of a `Int32` value.
    pub fn as_i32(&self) -> (r: Result<i32, DataError>)
        ensures
            match self {
                Value::Int32(v) => r == Ok::<i32, DataError>(*v),
                _ => r == Err::<i32, DataError>(DataError::TypeMismatch),
            },
    {
        match self {
            Value::Int32(v) => Ok(*v),
            _ => Err(DataError::TypeMismatch),
        }
    }

    /// The integer of a `UInt8` value.
    pub fn as_u8(&self) -> (r: Result<u8, DataError>)
        ensures
            match self {
                Value::UInt8(v) => r == Ok::<u8, DataError>(*v),
                _ => r == Err::<u8, DataError>(DataError::TypeMismatch),
            },
    {
        match self {
            Value::UInt8(v) => Ok(*v),
            _ => Err(DataError::TypeMismatch),
        }
    }

    /// The integer of a `UInt16` value.
    pub fn as_u16(&self) -> (r: Result<u16, DataError>)
        ensures
            match self {
                Value::UInt16(v) => r == Ok::<u16, DataError>(*v),
                _ => r == Err::<u16, DataError>(DataError::TypeMismatch),
            },
    {
        match self {
            Value::UInt16(v) => Ok(*v),
            _ => Err(DataError::TypeMismatch),
        }
    }

    /// The integer of a `UInt32` value.
    pub fn as_u32(&self) -> (r: Result<u32, DataError>)
        ensures
            match self {
                Value::UInt32(v) => r == Ok::<u32, DataError>(*v),
                _ => r == Err::<u32, DataError>(DataError::TypeMismatch),
            },
    {
        match self {
            Value::UInt32(v) => Ok(*v),
            _ => Err(DataError::TypeMismatch),
        }
    }

    /// The integer of a `StringId` value.
    pub fn as_string_id(&self) -> (r: Result<u16, DataError>)
        ensures
            match self {
                Value::StringId(v) => r == Ok::<u16, DataError>(*v),
                _ => r == Err::<u16, DataError>(DataError::TypeMismatch),
            },
    {
        match self {
            Value::StringId(v) => Ok(*v),
            _ => Err(DataError::TypeMismatch),
        }
    }

    /// The integer of a `ItemCode` value.
    pub fn as_item_code(&self) -> (r: Result<u32, DataError>)
        ensures
            match self {
                Value::ItemCode(v) => r == Ok::<u32, DataError>(*v),
                _ => r == Err::<u32, DataError>(DataError::TypeMismatch),
            },
    {
        match self {
            Value::ItemCode(v) => Ok(*v),
            _ => Err(DataError::TypeMismatch),
        }
    }
}

/// The text of a packed code: its four bytes, least significant first, without trailing NULs.
pub fn packed_code_text(code: u32) -> (r: Result<String, DataError>)
    ensures
        match r {
            Ok(s) => utf8_text(trim_nul_end(le_bytes(code))) == Some(s@),
            Err(e) => e == DataError::MalformedText && utf8_text(trim_nul_end(le_bytes(code)))
                is None,
        },
{
    let bytes: Vec<u8> = vec![
        (code % 256) as u8,
        ((code / 256) % 256) as u8,
        ((code / 65536) % 256) as u8,
        (code / 16777216) as u8,
    ];
    assert(bytes@ =~= le_bytes(code));
    assert(bytes@.subrange(0, 4) =~= bytes@);
    let trimmed = copy_trimmed(bytes.as_slice(), 0, 4);
    match string_from_utf8(trimmed) {
        Some(s) => Ok(s),
        None => Err(DataError::MalformedText),
    }
}

/// A vector of `size` copies of `fill`: the zeroed contents of a fixed-capacity array.
pub fn new_vec<T: Copy>(size: usize, fill: T) -> (r: Vec<T>)
    ensures
        r@ =~= Seq::new(size as nat, |i: int| fill),
{
    let mut r: Vec<T> = Vec::new();
    let mut i: usize = 0;
    while i < size
        invariant
            i <= size,
            r@ =~= Seq::new(i as nat, |k: int| fill),
        decreases size - i,
    {
        r.push(fill);
        i = i + 1;
    }
    r
}

} // verus!
