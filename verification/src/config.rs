//! Server identifiers and connection defaults.
use vstd::prelude::*;

verus! {

/// Identifies a saved server. Holds the 128 bits of a UUID, so that a
/// server id cannot be confused with a player name or any other string.
#[derive(Clone, Copy, Debug, PartialEq, Eq, Hash, Structural)]
pub struct ServerId(pub u128);

/// Whether `v` has the version (4, random) and variant (RFC 4122) bits of a
/// randomly generated UUID.
pub open spec fn is_random_uuid(v: u128) -> bool {
    v & 0xF000_C000_0000_0000_0000u128 == 0x4000_8000_0000_0000_0000u128
}

/// The lower-case hexadecimal digit for `n` (below sixteen).
pub open spec fn hex_digit(n: u128) -> char {
    if n < 10 {
        ('0' as u32 + n) as char
    } else {
        ('a' as u32 + n - 10) as char
    }
}

/// Digit `k` (0 the most significant) of the 32 hexadecimal digits of `v`.
pub open spec fn nibble(v: u128, k: int) -> u128 {
    (v >> ((4 * (31 - k)) as u128)) & 0xf
}

/// Which hexadecimal digit stands at position `p` of the hyphenated form.
pub open spec fn digit_at(p: int) -> int {
    if p < 8 {
        p
    } else if p < 13 {
        p - 1
    } else if p < 18 {
        p - 2
    } else if p < 23 {
        p - 3
    } else {
        p - 4
    }
}

/// Whether position `p` of the hyphenated form holds a hyphen.
pub open spec fn is_hyphen_position(p: int) -> bool {
    p == 8 || p == 13 || p == 18 || p == 23
}

/// The hyphenated lower-case form of a UUID, `xxxxxxxx-xxxx-xxxx-xxxx-xxxxxxxxxxxx`.
pub open spec fn hyphenated(v: u128) -> Seq<char> {
    Seq::new(
        36,
        |p: int|
            if is_hyphen_position(p) {
                '-'
            } else {
                hex_digit(nibble(v, digit_at(p)))
            },
    )
}

/// A fresh random UUID from `uuid::Uuid::new_v4`, as its 128 bits
/// (`as_u128`, big-endian). The crate masks a random number so that the
/// version and variant bits are those of a random UUID; nothing else is
/// claimed of the value.
#[verifier::external_body]
fn new_random_uuid() -> (v: u128)
    ensures
        is_random_uuid(v),
{
    uuid::Uuid::new_v4().as_u128()
}

/// The hyphenated lower-case text of a UUID: `Display` of
/// `uuid::Uuid::from_u128(v)`, which formats the sixteen big-endian bytes
/// as hexadecimal digits in groups of 8-4-4-4-12.
#[verifier::external_body]
fn uuid_text(v: u128) -> (s: String)
    ensures
        s@ == hyphenated(v),
{
    uuid::Uuid::from_u128(v).to_string()
}

/// What `uuid::Uuid::parse_str` gives for a text, as 128 bits.
pub uninterp spec fn uuid_parsed(s: Seq<char>) -> Option<u128>;

/// Parse a UUID with `uuid::Uuid::parse_str`, which accepts the simple,
/// hyphenated, braced and URN forms, with digits of either case. Claimed:
/// the result is a function of the text, and the hyphenated lower-case
/// form of a value parses back to that value.
#[verifier::external_body]
fn parse_uuid(s: &str) -> (r: Option<u128>)
    ensures
        r == uuid_parsed(s@),
        forall|v: u128| s@ == hyphenated(v) ==> r == Some(v),
{
    match uuid::Uuid::parse_str(s) {
        Ok(u) => Some(u.as_u128()),
        Err(_) => None,
    }
}

impl ServerId {
    /// A fresh random server id.
    pub fn new() -> (id: ServerId)
        ensures
            is_random_uuid(id.0),
    {
        ServerId(new_random_uuid())
    }

    /// The id in its hyphenated form, as stored in the database.
    pub fn to_string(&self) -> (s: String)
        ensures
            s@ == hyphenated(self.0),
    {
        uuid_text(self.0)
    }

    /// Read an id back from its text; `None` when the text is not a UUID.
    /// The text that [`ServerId::to_string`] gives reads back as the same id.
    pub fn parse_str(s: &str) -> (r: Option<ServerId>)
        ensures
            r == match uuid_parsed(s@) {
                Some(v) => Some(ServerId(v)),
                None => None::<ServerId>,
            },
            forall|id: ServerId| s@ == hyphenated(id.0) ==> r == Some(id),
    {
        match parse_uuid(s) {
            Some(v) => Some(ServerId(v)),
            None => None,
        }
    }
}

impl Default for ServerId {
    /// A fresh random server id.
    fn default() -> (id: ServerId)
        ensures
            is_random_uuid(id.0),
    {
        ServerId::new()
    }
}

/// The text of an id is the 36 characters of a hyphenated UUID, with
/// hyphens at 8, 13, 18 and 23 and hexadecimal digits elsewhere.
pub proof fn law_id_text_is_hyphenated_uuid(id: ServerId)
    ensures
        hyphenated(id.0).len() == 36,
        forall|p: int| 0 <= p < 36 ==> (hyphenated(id.0)[p] == '-' <==> is_hyphen_position(p)),
{
    assert forall|p: int| 0 <= p < 36 implies (hyphenated(id.0)[p] == '-'
        <==> is_hyphen_position(p)) by {
        if !is_hyphen_position(p) {
            let v = id.0;
            let shift = (4 * (31 - digit_at(p))) as u128;
            let n = nibble(v, digit_at(p));
            assert(n == (v >> shift) & 0xf);
            assert((v >> shift) & 0xf < 16) by (bit_vector);
        }
    }
}

/// How long connecting and authenticating may take, in seconds.
pub const DEFAULT_CONNECT_TIMEOUT_SECS: u64 = 10;

/// How long one command may take, in seconds.
pub const DEFAULT_COMMAND_TIMEOUT_SECS: u64 = 5;

} // verus!
