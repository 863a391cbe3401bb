//! The shape of the serialized record shared by both maps: the fields
//! `values`, `keys` and `function` (the hash function's own bytes), the
//! bookkeeping of a field-by-field decode, and the errors it can report.
use vstd::prelude::*;

verus! {

/// A field of the serialized record, in wire order.
#[derive(Clone, Copy, Debug, PartialEq, Eq, Structural)]
pub enum Field {
    Values,
    Keys,
    Function,
}

impl Field {
    /// The field's name on the wire.
    pub fn name(self) -> (r: &'static str)
        ensures
            self == Field::Values ==> r@ == "values"@,
            self == Field::Keys ==> r@ == "keys"@,
            self == Field::Function ==> r@ == "function"@,
    {
        match self {
            Field::Values => "values",
            Field::Keys => "keys",
            Field::Function => "function",
        }
    }
}

/// Why a serialized record could not be turned back into a map.
#[derive(Clone, Copy, Debug, PartialEq, Eq, Structural)]
pub enum DecodeError {
    /// A required field never came.
    MissingField(Field),
    /// A field came a second time.
    DuplicateField(Field),
    /// A positional record ended after this many elements.
    InvalidLength(usize),
    /// The `function` bytes do not hold a hash function.
    InvalidFunctionBytes,
}

/// Why a map could not be serialized.
#[derive(Clone, Copy, Debug, PartialEq, Eq, Structural)]
pub enum EncodeError {
    /// The hash function could not write its bytes.
    FunctionNotWritten,
}

/// Which fields a field-by-field decode has met so far.
pub struct FieldsSeen {
    pub values: bool,
    pub keys: bool,
    pub function: bool,
}

impl FieldsSeen {
    /// Whether `field` has been met.
    pub open spec fn has(self, field: Field) -> bool {
        match field {
            Field::Values => self.values,
            Field::Keys => self.keys,
            Field::Function => self.function,
        }
    }

    /// No field met yet.
    pub fn new() -> (r: FieldsSeen)
        ensures
            !r.has(Field::Values) && !r.has(Field::Keys) && !r.has(Field::Function),
    {
        FieldsSeen { values: false, keys: false, function: false }
    }

    /// Records that `field` has come; a second occurrence is an error and
    /// changes nothing.
    pub fn visit(&mut self, field: Field) -> (r: Result<(), DecodeError>)
        ensures
            old(self).has(field) ==> r == Err::<(), DecodeError>(DecodeError::DuplicateField(field))
                && *final(self) == *old(self),
            !old(self).has(field) ==> r is Ok && final(self).has(field) && forall|g: Field|
                g != field ==> final(self).has(g) == old(self).has(g),
    {
        let seen = match field {
            Field::Values => self.values,
            Field::Keys => self.keys,
            Field::Function => self.function,
        };
        if seen {
            return Err(DecodeError::DuplicateField(field));
        }
        match field {
            Field::Values => self.values = true,
            Field::Keys => self.keys = true,
            Field::Function => self.function = true,
        }
        Ok(())
    }
}

/// The variable-length integer that starts at `pos` in the hash function's
/// bytes, with the position after it: seven bits a byte, low bits first, a
/// byte below 128 ending it. Only encodings of up to four bytes are taken.
pub open spec fn varint_at(b: Seq<u8>, pos: int) -> Option<(int, int)> {
    if pos < 0 || pos >= b.len() {
        None
    } else if b[pos] < 128 {
        Some((b[pos] as int, pos + 1))
    } else if pos + 1 < b.len() && b[pos + 1] < 128 {
        Some(((b[pos] - 128) + b[pos + 1] * 128, pos + 2))
    } else if pos + 2 < b.len() && b[pos + 1] >= 128 && b[pos + 2] < 128 {
        Some(((b[pos] - 128) + (b[pos + 1] - 128) * 128 + b[pos + 2] * 16384, pos + 3))
    } else if pos + 3 < b.len() && b[pos + 1] >= 128 && b[pos + 2] >= 128 && b[pos + 3] < 128 {
        Some(
            (
                (b[pos] - 128) + (b[pos + 1] - 128) * 128 + (b[pos + 2] - 128) * 16384 + b[pos + 3]
                    * 2097152,
                pos + 4,
            ),
        )
    } else {
        None
    }
}

/// From `pos` on, `count` level sizes follow, each of at least one group, and
/// the groups counted so far (starting from `groups`) never exceed the
/// number of bytes.
pub open spec fn levels_framed(b: Seq<u8>, pos: int, count: nat, groups: int) -> bool
    decreases count,
{
    if count == 0 {
        true
    } else {
        match varint_at(b, pos) {
            Some((v, next)) => v >= 1 && groups + v <= b.len() && levels_framed(
                b,
                next,
                (count - 1) as nat,
                groups + v,
            ),
            None => false,
        }
    }
}

/// The frame of a hash function's bytes: a header byte, then the number of
/// levels and each level's size in groups. The levels are no more than the
/// bytes, each has a group, and all groups together are no more than the
/// bytes (the function holds two bytes per group), so that reading them
/// asks for no more memory than the bytes justify.
pub open spec fn is_framed_function(b: Seq<u8>) -> bool {
    match varint_at(b, 1) {
        Some((n, next)) => n <= b.len() && levels_framed(b, next, n as nat, 0),
        None => false,
    }
}

/// Reads the variable-length integer at `pos`.
pub fn read_varint(b: &[u8], pos: usize) -> (r: Option<(u64, usize)>)
    ensures
        match varint_at(b@, pos as int) {
            Some((v, next)) => r == Some((v as u64, next as usize)),
            None => r is None,
        },
{
    let n = b.len();
    if pos >= n {
        return None;
    }
    let b0 = b[pos] as u64;
    if b0 < 128 {
        return Some((b0, pos + 1));
    }
    if pos + 1 >= n {
        return None;
    }
    let b1 = b[pos + 1] as u64;
    if b1 < 128 {
        return Some(((b0 - 128) + b1 * 128, pos + 2));
    }
    if pos + 2 >= n {
        return None;
    }
    let b2 = b[pos + 2] as u64;
    if b2 < 128 {
        return Some(((b0 - 128) + (b1 - 128) * 128 + b2 * 16384, pos + 3));
    }
    if pos + 3 >= n {
        return None;
    }
    let b3 = b[pos + 3] as u64;
    if b3 < 128 {
        return Some(((b0 - 128) + (b1 - 128) * 128 + (b2 - 128) * 16384 + b3 * 2097152, pos + 4));
    }
    None
}

/// Whether `b` has the frame of a hash function's bytes.
pub fn function_is_framed(b: &[u8]) -> (r: bool)
    ensures
        r == is_framed_function(b@),
{
    let len = b.len();
    let (count, start) = match read_varint(b, 1) {
        Some(x) => x,
        None => return false,
    };
    if count > len as u64 {
        return false;
    }
    let mut pos: usize = start;
    let mut groups: u64 = 0;
    let mut i: u64 = 0;
    while i < count
        invariant
            i <= count,
            count <= len,
            len == b@.len(),
            groups <= len,
            is_framed_function(b@) == levels_framed(b@, pos as int, (count - i) as nat, groups as int),
        decreases count - i,
    {
        let (v, next) = match read_varint(b, pos) {
            Some(x) => x,
            None => return false,
        };
        if v < 1 || v > len as u64 - groups {
            return false;
        }
        groups = groups + v;
        pos = next;
        i = i + 1;
    }
    true
}

} // verus!
