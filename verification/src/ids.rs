//! Identifiers of journeys, mailboxes and stored objects.

use vstd::arithmetic::power::pow;
use vstd::prelude::*;

verus! {

/// A 128-bit identifier, held as its big-endian value.
#[derive(Clone, Copy, Debug, PartialEq, Eq, PartialOrd, Ord, Hash, Structural)]
pub struct Uuid {
    pub bits: u128,
}

/// Key of a mailbox or an object in void storage.
pub type ObjectId = Uuid;

/// The bits that mark a randomly generated identifier: version 4 in the high
/// nibble of byte 6, the RFC variant in the two high bits of byte 8.
pub open spec fn is_version_four(bits: u128) -> bool {
    &&& (bits >> 76) & 0xf == 4
    &&& (bits >> 62) & 0x3 == 2
}

/// Calls `uuid::Uuid::new_v4` and hands back its 128 bits.
///
/// The value is drawn from the operating system's generator, so nothing ties
/// one call to the next. What is believed of every outcome is that the version
/// and variant bits are set as `new_v4` masks them in.
#[verifier::external_body]
fn random_v4_bits() -> (bits: u128)
    ensures
        is_version_four(bits),
{
    uuid::Uuid::new_v4().as_u128()
}

/// The character of one lower-case hexadecimal digit.
pub open spec fn hex_char(d: int) -> char {
    if d < 10 {
        (48 + d) as char
    } else {
        (87 + d) as char
    }
}

/// How many hyphens stand before position `i` of an identifier's text.
pub open spec fn hyphens_before(i: int) -> int {
    if i <= 8 {
        0
    } else if i <= 13 {
        1
    } else if i <= 18 {
        2
    } else if i <= 23 {
        3
    } else {
        4
    }
}

/// The text of an identifier: its 32 hexadecimal digits, highest first, in
/// groups of 8, 4, 4, 4 and 12 joined by hyphens.
pub open spec fn hyphenated(bits: u128) -> Seq<char> {
    Seq::new(
        36,
        |i: int|
            if i == 8 || i == 13 || i == 18 || i == 23 {
                '-'
            } else {
                hex_char(bits as int / pow(16, (31 - (i - hyphens_before(i))) as nat) % 16)
            },
    )
}

/// Calls `uuid::Uuid::from_u128` and renders the result with its `Display`.
///
/// What is believed is the text that `Display` writes: the lower-case
/// hyphenated form of the 128 bits.
#[verifier::external_body]
fn hyphenated_text(bits: u128) -> (text: String)
    ensures
        text@ == hyphenated(bits),
{
    uuid::Uuid::from_u128(bits).to_string()
}

impl Uuid {
    /// The identifier with every bit clear.
    pub open spec fn spec_nil() -> Uuid {
        Uuid { bits: 0 }
    }

    /// True of an identifier that carries the marks of a random one.
    pub open spec fn is_random(self) -> bool {
        is_version_four(self.bits)
    }

    pub fn nil() -> (id: Uuid)
        ensures
            id == Uuid::spec_nil(),
    {
        Uuid { bits: 0 }
    }

    pub fn from_u128(bits: u128) -> (id: Uuid)
        ensures
            id.bits == bits,
    {
        Uuid { bits }
    }

    pub fn as_u128(&self) -> (bits: u128)
        ensures
            bits == self.bits,
    {
        self.bits
    }

    /// Renders the identifier for a reader.
    pub fn to_text(&self) -> (text: String)
        ensures
            text@ == hyphenated(self.bits),
    {
        hyphenated_text(self.bits)
    }

    pub fn is_nil(&self) -> (nil: bool)
        ensures
            nil == (*self == Uuid::spec_nil()),
    {
        self.bits == 0
    }

    /// Draws a fresh random identifier.
    pub fn new_v4() -> (id: Uuid)
        ensures
            id.is_random(),
            id != Uuid::spec_nil(),
    {
        let id = Uuid { bits: random_v4_bits() };
        proof {
            lemma_random_is_not_nil(id);
        }
        id
    }
}

impl Default for Uuid {
    fn default() -> (id: Uuid)
        ensures
            id == Uuid::spec_nil(),
    {
        Uuid::nil()
    }
}

/// A random identifier is never the nil one.
pub proof fn lemma_random_is_not_nil(id: Uuid)
    requires
        id.is_random(),
    ensures
        id != Uuid::spec_nil(),
{
    let bits = id.bits;
    assert(bits != 0) by (bit_vector)
        requires
            (bits >> 76) & 0xf == 4,
    ;
}

} // verus!
