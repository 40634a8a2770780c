//! Dependencies of one crate version on other crates, and the kind tag that
//! is persisted with each of them as a small integer.

use vstd::prelude::*;
use vstd::std_specs::convert::FromSpecImpl;

use crate::util::text::ascii_text;
use crate::util::text::decimal;
use crate::util::text::decimal_bytes;
use crate::util::text::lemma_decimal_is_ascii;
use crate::util::text::string_from_ascii;

verus! {

/// One dependency of a crate version.
#[derive(Debug)]
pub struct Dependency {
    pub id: i32,
    pub version_id: i32,
    pub crate_id: i32,
    pub req: String,
    pub optional: bool,
    pub default_features: bool,
    pub features: Vec<String>,
    pub target: Option<String>,
    pub kind: DependencyKind,
    pub explicit_name: Option<String>,
}

/// A dependency seen from the crate that is depended on.
#[derive(Debug)]
pub struct ReverseDependency {
    pub dependency: Dependency,
    pub crate_downloads: i32,
    pub name: String,
}

/// Why a crate is needed.
#[derive(Copy, Clone, Debug, PartialEq, Eq, Structural)]
pub enum DependencyKind {
    Normal,
    Build,
    Dev,
}

/// The kind of a dependency as the registry index records it.
#[derive(Copy, Clone, Debug, PartialEq, Eq, Structural)]
pub enum IndexDependencyKind {
    Normal,
    Build,
    Dev,
}

/// Why a persisted kind could not be decoded.
#[derive(Copy, Clone, Debug, PartialEq, Eq, Structural)]
pub enum KindError {
    /// Fewer than four bytes were stored.
    TooShort,
    /// More than four bytes were stored.
    TooLong,
    /// The stored integer stands for no kind.
    UnknownKind(i32),
}

/// The unsigned integer whose big-endian encoding is the given four bytes.
pub open spec fn be_u32(bytes: Seq<u8>) -> int
    recommends
        bytes.len() == 4,
{
    bytes[0] * 0x100_0000 + bytes[1] * 0x1_0000 + bytes[2] * 0x100 + bytes[3]
}

/// The signed integer whose big-endian two's-complement encoding is the
/// given four bytes.
pub open spec fn be_i32(bytes: Seq<u8>) -> int
    recommends
        bytes.len() == 4,
{
    if be_u32(bytes) >= 0x8000_0000 {
        be_u32(bytes) - 0x1_0000_0000
    } else {
        be_u32(bytes)
    }
}

/// What a stored byte string decodes to.
pub open spec fn decoded(bytes: Seq<u8>) -> Result<DependencyKind, KindError> {
    if bytes.len() < 4 {
        Err(KindError::TooShort)
    } else if bytes.len() > 4 {
        Err(KindError::TooLong)
    } else {
        DependencyKind::of_code(be_i32(bytes))
    }
}

impl KindError {
    /// What the error says.
    pub open spec fn message_text(self) -> Seq<char> {
        match self {
            KindError::TooShort => "received less than 4 bytes while decoding a kind"@,
            KindError::TooLong => "received more than 4 bytes while decoding a kind"@,
            KindError::UnknownKind(n) => "unknown kind: "@ + ascii_text(decimal(n as int)),
        }
    }

    /// What the error says. For an integer that stands for no kind this is
    /// `unknown kind: ` followed by the integer in decimal.
    pub fn message(&self) -> (text: String)
        ensures
            text@ == self.message_text(),
    {
        match self {
            KindError::TooShort => String::from_str(
                "received less than 4 bytes while decoding a kind",
            ),
            KindError::TooLong => String::from_str(
                "received more than 4 bytes while decoding a kind",
            ),
            KindError::UnknownKind(n) => {
                proof {
                    lemma_decimal_is_ascii(*n as int);
                }
                let number = string_from_ascii(decimal_bytes(*n));
                let mut text = String::from_str("unknown kind: ");
                text.append(number.as_str());
                text
            },
        }
    }
}

impl DependencyKind {
    /// The integer a kind is persisted as.
    pub open spec fn code(self) -> int {
        match self {
            DependencyKind::Normal => 0,
            DependencyKind::Build => 1,
            DependencyKind::Dev => 2,
        }
    }

    /// The kind a persisted integer stands for.
    pub open spec fn of_code(n: int) -> Result<DependencyKind, KindError> {
        if n == 0 {
            Ok(DependencyKind::Normal)
        } else if n == 1 {
            Ok(DependencyKind::Build)
        } else if n == 2 {
            Ok(DependencyKind::Dev)
        } else {
            Err(KindError::UnknownKind(n as i32))
        }
    }

    /// The integer this kind is persisted as.
    pub fn to_i32(self) -> (n: i32)
        ensures
            n == self.code(),
    {
        match self {
            DependencyKind::Normal => 0,
            DependencyKind::Build => 1,
            DependencyKind::Dev => 2,
        }
    }

    /// The kind a persisted integer stands for. An integer that stands for
    /// no kind is reported, never replaced by a default.
    pub fn from_i32(n: i32) -> (kind: Result<DependencyKind, KindError>)
        ensures
            kind == Self::of_code(n as int),
    {
        match n {
            0 => Ok(DependencyKind::Normal),
            1 => Ok(DependencyKind::Build),
            2 => Ok(DependencyKind::Dev),
            _ => Err(KindError::UnknownKind(n)),
        }
    }

    /// Decodes a kind from the four big-endian bytes of a stored integer.
    pub fn from_sql(bytes: &[u8]) -> (kind: Result<DependencyKind, KindError>)
        ensures
            kind == decoded(bytes@),
    {
        if bytes.len() < 4 {
            return Err(KindError::TooShort);
        }
        if bytes.len() > 4 {
            return Err(KindError::TooLong);
        }
        let unsigned: u32 = (bytes[0] as u32) * 0x100_0000 + (bytes[1] as u32) * 0x1_0000 + (
        bytes[2] as u32) * 0x100 + (bytes[3] as u32);
        let signed: i32 = if unsigned >= 0x8000_0000 {
            ((unsigned as i64) - 0x1_0000_0000) as i32
        } else {
            unsigned as i32
        };
        Self::from_i32(signed)
    }

    /// The four big-endian bytes this kind is stored as.
    pub fn to_sql(self) -> (bytes: Vec<u8>)
        ensures
            bytes@ == seq![0u8, 0u8, 0u8, self.code() as u8],
    {
        let mut bytes: Vec<u8> = Vec::new();
        bytes.push(0);
        bytes.push(0);
        bytes.push(0);
        bytes.push(self.to_i32() as u8);
        bytes
    }
}

impl From<DependencyKind> for IndexDependencyKind {
    fn from(dk: DependencyKind) -> (kind: Self)
    {
        match dk {
            DependencyKind::Normal => IndexDependencyKind::Normal,
            DependencyKind::Build => IndexDependencyKind::Build,
            DependencyKind::Dev => IndexDependencyKind::Dev,
        }
    }
}

impl FromSpecImpl<DependencyKind> for IndexDependencyKind {
    open spec fn obeys_from_spec() -> bool {
        true
    }

    open spec fn from_spec(dk: DependencyKind) -> Self {
        match dk {
            DependencyKind::Normal => IndexDependencyKind::Normal,
            DependencyKind::Build => IndexDependencyKind::Build,
            DependencyKind::Dev => IndexDependencyKind::Dev,
        }
    }
}

/// Every kind is read back from the integer it is persisted as.
pub proof fn lemma_code_round_trip(kind: DependencyKind)
    ensures
        DependencyKind::of_code(kind.code()) == Ok::<DependencyKind, KindError>(kind),
{
}

/// An integer decodes to a kind exactly when it is the code of one, and then
/// to the kind with that code.
pub proof fn lemma_decode_is_exact(n: i32)
    ensures
        DependencyKind::of_code(n as int) is Ok <==> 0 <= n <= 2,
        DependencyKind::of_code(n as int) matches Ok(kind) ==> kind.code() == n,
        DependencyKind::of_code(n as int) matches Err(e) ==> e == KindError::UnknownKind(n),
{
}

/// Every kind is read back from the bytes it is stored as.
pub proof fn lemma_stored_round_trip(kind: DependencyKind)
    ensures
        decoded(seq![0u8, 0u8, 0u8, kind.code() as u8]) == Ok::<DependencyKind, KindError>(kind),
{
}

} // verus!
