//! Strongly-typed identifiers backed by 128-bit UUID values.

use vstd::prelude::*;

verus! {

/// Fencing token: which assignment generation a message belongs to.
pub type Attempt = u32;

/// Identifies one pull-request review task end to end.
#[derive(Clone, Copy, PartialEq, Eq, Structural, Hash, PartialOrd, Ord, Debug)]
pub struct TaskId(pub u128);

/// Identifies one worker generation; a fresh id is minted per attempt.
#[derive(Clone, Copy, PartialEq, Eq, Structural, Hash, PartialOrd, Ord, Debug)]
pub struct WorkerId(pub u128);

/// The text `uuid::Uuid::parse_str` turns into a UUID, as its 128-bit value;
/// `None` where it refuses the text.
pub uninterp spec fn uuid_parse(text: Seq<char>) -> Option<u128>;

/// A hexadecimal digit, lower case.
pub open spec fn hex_digit(n: u128) -> char {
    seq!['0', '1', '2', '3', '4', '5', '6', '7', '8', '9', 'a', 'b', 'c', 'd', 'e', 'f'][n as int]
}

/// The `j`-th of the 32 hexadecimal digits of `v`, most significant first.
pub open spec fn nibble(v: u128, j: int) -> u128 {
    (v >> ((124 - 4 * j) as u128)) & 0xf
}

/// Which hexadecimal digit stands at position `p` of the hyphenated text.
pub open spec fn digit_at(p: int) -> int {
    if p < 8 { p } else if p < 13 { p - 1 } else if p < 18 { p - 2 } else if p < 23 { p - 3 } else { p - 4 }
}

/// The hyphenated lower-case text of a UUID value: its 32 hexadecimal
/// digits, most significant first, in groups of 8, 4, 4, 4 and 12 joined by
/// `-`.
pub open spec fn uuid_text(value: u128) -> Seq<char> {
    Seq::new(36, |p: int| if p == 8 || p == 13 || p == 18 || p == 23 { '-' } else { hex_digit(nibble(value, digit_at(p))) })
}

/// Whether a 128-bit value carries the RFC 4122 version-4 / variant-1 bits.
pub open spec fn is_v4_value(v: u128) -> bool {
    &&& v & 0xF000_0000_0000_0000_0000u128 == 0x4000_0000_0000_0000_0000u128
    &&& v & 0xC000_0000_0000_0000u128 == 0x8000_0000_0000_0000u128
}

/// Calls `uuid::Uuid::new_v4` and returns its 128-bit value. The value is
/// random; the crate's source sets the version nibble to 4 and the variant
/// bits to `10`, and that is all this contract claims.
#[verifier::external_body]
fn random_v4_value() -> (v: u128)
    ensures
        is_v4_value(v),
{
    uuid::Uuid::new_v4().as_u128()
}

/// Calls `uuid::Uuid::parse_str`; the result is the parsed value, or `None`
/// on the crate's error.
#[verifier::external_body]
fn parse_uuid_value(text: &str) -> (r: Option<u128>)
    ensures
        r == uuid_parse(text@),
{
    match uuid::Uuid::parse_str(text) {
        Ok(u) => Some(u.as_u128()),
        Err(_) => None,
    }
}

/// Calls `uuid::Uuid::from_u128(value).to_string()`: `Display` writes the
/// hyphenated lower-case form of the value's big-endian bytes.
#[verifier::external_body]
fn uuid_value_text(value: u128) -> (s: String)
    ensures
        s@ == uuid_text(value),
{
    uuid::Uuid::from_u128(value).to_string()
}

pub proof fn lemma_v4_value_is_not_nil(v: u128)
    requires
        is_v4_value(v),
    ensures
        v != 0,
{
    assert(v == 0 ==> v & 0xF000_0000_0000_0000_0000u128 == 0) by (bit_vector);
}

impl TaskId {
    /// A fresh random (version-4) identifier.
    pub fn generate() -> (id: TaskId)
        ensures
            is_v4_value(id.0),
            id.0 != 0,
    {
        let v = random_v4_value();
        proof { lemma_v4_value_is_not_nil(v); }
        TaskId(v)
    }

    /// The all-zero identifier.
    pub fn nil() -> (id: TaskId)
        ensures
            id.0 == 0,
    {
        TaskId(0)
    }

    /// Parses the textual UUID forms the `uuid` crate accepts.
    pub fn parse(text: &str) -> (r: Option<TaskId>)
        ensures
            r == (match uuid_parse(text@) {
                Some(v) => Some(TaskId(v)),
                None => None::<TaskId>,
            }),
    {
        match parse_uuid_value(text) {
            Some(v) => Some(TaskId(v)),
            None => None,
        }
    }

    /// The hyphenated lower-case text of the identifier.
    pub fn to_text(&self) -> (s: String)
        ensures
            s@ == uuid_text(self.0),
    {
        uuid_value_text(self.0)
    }
}

impl WorkerId {
    /// A fresh random (version-4) identifier.
    pub fn generate() -> (id: WorkerId)
        ensures
            is_v4_value(id.0),
            id.0 != 0,
    {
        let v = random_v4_value();
        proof { lemma_v4_value_is_not_nil(v); }
        WorkerId(v)
    }

    /// The all-zero identifier, used where a lease has no recorded holder.
    pub fn nil() -> (id: WorkerId)
        ensures
            id.0 == 0,
    {
        WorkerId(0)
    }

    /// The hyphenated lower-case text of the identifier.
    pub fn to_text(&self) -> (s: String)
        ensures
            s@ == uuid_text(self.0),
    {
        uuid_value_text(self.0)
    }
}

} // verus!
