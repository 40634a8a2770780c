//! Secret tokens: how they are drawn, displayed, recognised and digested.
//!
//! A token is shown to its owner exactly once, as a kind-specific prefix
//! followed by a fixed number of ASCII letters and digits. Only the SHA-256
//! digest of the secret part is ever kept, and tokens are compared digest to
//! digest.

use vstd::prelude::*;
use vstd::utf8::encode_utf8;

use rand::Rng;
use sha2::Digest;

use crate::util::text::lemma_ascii_text_bytes;
use crate::util::text::string_from_ascii;

verus! {

/// Number of characters in the secret part of every token.
pub const SECRET_LENGTH: usize = 32;

/// Number of different characters a secret is drawn from.
pub const ALPHABET_SIZE: usize = 62;

/// The kinds of token that may be presented. A token of any kind is the
/// prefix of its kind followed by a secret of `SECRET_LENGTH` ASCII letters
/// and digits.
#[derive(Clone, Copy, Debug, PartialEq, Eq, Structural)]
pub enum SecureTokenKind {
    /// A token of the current format, displayed with the prefix `cio`.
    Api,
    /// A token issued before prefixes existed: the bare secret. Such tokens
    /// are still recognised so that they can be refused by name.
    Legacy,
}

/// The SHA-256 digest of a byte string.
pub uninterp spec fn sha256_digest(data: Seq<u8>) -> Seq<u8>;

/// An ASCII letter or digit: `0` to `9`, `A` to `Z` or `a` to `z`.
pub open spec fn is_alphanumeric(b: u8) -> bool {
    ||| 0x30 <= b <= 0x39
    ||| 0x41 <= b <= 0x5a
    ||| 0x61 <= b <= 0x7a
}

/// The character that stands for an index into the alphabet: the lower-case
/// letters from `a`, then the upper-case letters from `A`, then the digits
/// from `0`.
pub open spec fn alphabet_at(index: int) -> u8 {
    if index < 26 {
        (0x61 + index) as u8
    } else if index < 52 {
        (0x41 + (index - 26)) as u8
    } else {
        (0x30 + (index - 52)) as u8
    }
}

/// A well-formed secret: `SECRET_LENGTH` letters and digits.
pub open spec fn is_secret(secret: Seq<u8>) -> bool {
    &&& secret.len() == SECRET_LENGTH
    &&& forall|i: int| 0 <= i < secret.len() ==> is_alphanumeric(#[trigger] secret[i])
}

/// What the owner of a token of this kind is shown for a secret.
pub open spec fn display(kind: SecureTokenKind, secret: Seq<u8>) -> Seq<u8> {
    kind.prefix_bytes() + secret
}

/// The part of a presented string that follows the prefix of `kind`.
pub open spec fn secret_part(kind: SecureTokenKind, presented: Seq<u8>) -> Seq<u8> {
    presented.subrange(kind.prefix_bytes().len() as int, presented.len() as int)
}

/// Whether a presented string is the prefix of `kind` followed by a
/// well-formed secret and nothing else.
pub open spec fn has_shape(kind: SecureTokenKind, presented: Seq<u8>) -> bool {
    let prefix = kind.prefix_bytes();
    &&& presented.len() == prefix.len() + SECRET_LENGTH
    &&& presented.subrange(0, prefix.len() as int) == prefix
    &&& is_secret(secret_part(kind, presented))
}

/// The digest a presented string stands for under `kind`, if it has the
/// shape of that kind.
pub open spec fn parsed(kind: SecureTokenKind, presented: Seq<u8>) -> Option<Seq<u8>> {
    if has_shape(kind, presented) {
        Some(sha256_digest(secret_part(kind, presented)))
    } else {
        None
    }
}

impl SecureTokenKind {
    /// The literal every displayed token of this kind starts with: `cio`
    /// for the current format, nothing for the old one.
    pub open spec fn prefix_bytes(self) -> Seq<u8> {
        match self {
            SecureTokenKind::Api => seq![0x63u8, 0x69u8, 0x6fu8],
            SecureTokenKind::Legacy => Seq::<u8>::empty(),
        }
    }

    /// The literal every displayed token of this kind starts with.
    pub fn prefix(&self) -> (prefix: Vec<u8>)
        ensures
            prefix@ == self.prefix_bytes(),
    {
        let mut prefix: Vec<u8> = Vec::new();
        match self {
            SecureTokenKind::Api => {
                prefix.push(0x63u8);
                prefix.push(0x69u8);
                prefix.push(0x6fu8);
            },
            SecureTokenKind::Legacy => {},
        }
        prefix
    }

    /// Whether the bytes are the prefix of this kind followed by a
    /// well-formed secret and nothing else.
    #[verifier::loop_isolation(false)]
    pub fn is_shape_of(&self, bytes: &[u8]) -> (fits: bool)
        ensures
            fits == has_shape(*self, bytes@),
    {
        let prefix = self.prefix();
        if bytes.len() < prefix.len() || bytes.len() - prefix.len() != SECRET_LENGTH {
            return false;
        }
        let mut i: usize = 0;
        while i < prefix.len()
            invariant
                i <= prefix@.len(),
                bytes@.subrange(0, i as int) =~= prefix@.subrange(0, i as int),
            decreases prefix@.len() - i,
        {
            if bytes[i] != prefix[i] {
                proof {
                    let head = bytes@.subrange(0, prefix@.len() as int);
                    assert(head[i as int] != prefix@[i as int]);
                }
                return false;
            }
            assert(bytes@.subrange(0, i + 1) == bytes@.subrange(0, i as int).push(bytes@[i as int]));
            assert(prefix@.subrange(0, i + 1) == prefix@.subrange(0, i as int).push(
                prefix@[i as int],
            ));
            i = i + 1;
        }
        assert(prefix@.subrange(0, i as int) == prefix@);
        let secret = vstd::slice::slice_subrange(bytes, prefix.len(), bytes.len());
        SecureToken::is_valid_secret(secret)
    }

    /// The kind whose shape a presented string has, if it has the shape of
    /// any. The current format is tried first.
    pub fn from_token(plaintext: &str) -> (kind: Option<SecureTokenKind>)
        ensures
            match kind {
                Some(k) => has_shape(k, encode_utf8(plaintext@)),
                None => forall|k: SecureTokenKind| !has_shape(k, encode_utf8(plaintext@)),
            },
            has_shape(SecureTokenKind::Api, encode_utf8(plaintext@)) ==> kind == Some(
                SecureTokenKind::Api,
            ),
    {
        let bytes = plaintext.as_bytes();
        if SecureTokenKind::Api.is_shape_of(bytes) {
            Some(SecureTokenKind::Api)
        } else if SecureTokenKind::Legacy.is_shape_of(bytes) {
            Some(SecureTokenKind::Legacy)
        } else {
            assert forall|k: SecureTokenKind| !has_shape(k, encode_utf8(plaintext@)) by {
                match k {
                    SecureTokenKind::Api => {},
                    SecureTokenKind::Legacy => {},
                }
            }
            None
        }
    }
}

/// The stored form of a token: the SHA-256 digest of its secret. Two of them
/// are compared with `matches`, never with `==`.
pub struct SecureToken {
    sha256: Vec<u8>,
}

/// A freshly made token: the text shown to its owner once, and the stored form.
pub struct NewSecureToken {
    plaintext: String,
    inner: SecureToken,
}

impl View for SecureToken {
    type V = Seq<u8>;

    closed spec fn view(&self) -> Seq<u8> {
        self.sha256@
    }
}

impl Clone for SecureToken {
    fn clone(&self) -> (copy: Self)
        ensures
            copy@ == self@,
    {
        SecureToken { sha256: self.sha256.clone() }
    }
}

/// Computes `sha2::Sha256::digest` of `data`. The contract only names the
/// result; nothing about the digest is assumed.
#[verifier::external_body]
fn sha256(data: &[u8]) -> (digest: Vec<u8>)
    ensures
        digest@ == sha256_digest(data@),
{
    sha2::Sha256::digest(data).to_vec()
}

/// Draws a number below `bound` from the operating system's random source,
/// by `rand::Rng::gen_range` on `rand::rngs::OsRng`. The contract states only
/// the range of the result, which is all that holds of every draw. The call
/// stops the program if the operating system cannot supply random bytes.
#[verifier::external_body]
fn random_below(bound: usize) -> (drawn: usize)
    requires
        bound > 0,
    ensures
        drawn < bound,
{
    rand::rngs::OsRng.gen_range(0..bound)
}

/// The character for an index into the alphabet.
pub fn alphabet_char(index: usize) -> (c: u8)
    requires
        index < ALPHABET_SIZE,
    ensures
        c == alphabet_at(index as int),
        is_alphanumeric(c),
{
    if index < 26 {
        0x61u8 + (index as u8)
    } else if index < 52 {
        0x41u8 + ((index - 26) as u8)
    } else {
        0x30u8 + ((index - 52) as u8)
    }
}

/// Whether a byte is an ASCII letter or digit.
pub fn byte_is_alphanumeric(b: u8) -> (r: bool)
    ensures
        r == is_alphanumeric(b),
{
    (0x30 <= b && b <= 0x39) || (0x41 <= b && b <= 0x5a) || (0x61 <= b && b <= 0x7a)
}

/// Compares two byte strings without stopping at the first difference, so
/// that the time taken does not depend on where they differ.
pub fn constant_time_eq(a: &[u8], b: &[u8]) -> (same: bool)
    ensures
        same == (a@ == b@),
{
    if a.len() != b.len() {
        return false;
    }
    let mut diff: u8 = 0;
    let mut i: usize = 0;
    while i < a.len()
        invariant
            a@.len() == b@.len(),
            i <= a@.len(),
            diff == 0 <==> a@.subrange(0, i as int) =~= b@.subrange(0, i as int),
        decreases a@.len() - i,
    {
        let x: u8 = a[i];
        let y: u8 = b[i];
        let step: u8 = diff | (x ^ y);
        assert(step == 0 <==> (diff == 0 && x == y)) by (bit_vector)
            requires
                step == diff | (x ^ y),
        ;
        proof {
            let pa = a@.subrange(0, i as int);
            let pb = b@.subrange(0, i as int);
            let na = a@.subrange(0, i + 1);
            let nb = b@.subrange(0, i + 1);
            assert(na == pa.push(x));
            assert(nb == pb.push(y));
            if na == nb {
                assert(na[i as int] == nb[i as int]);
                assert(pa =~= na.subrange(0, i as int));
                assert(pb =~= nb.subrange(0, i as int));
            }
        }
        diff = step;
        i = i + 1;
    }
    assert(a@.subrange(0, i as int) == a@);
    assert(b@.subrange(0, i as int) == b@);
    diff == 0
}

impl NewSecureToken {
    /// The text shown to the owner.
    pub closed spec fn plaintext_text(&self) -> Seq<char> {
        self.plaintext@
    }

    /// The bytes of the text shown to the owner.
    pub open spec fn plaintext_bytes(&self) -> Seq<u8> {
        encode_utf8(self.plaintext_text())
    }

    /// The digest that is stored for this token.
    pub closed spec fn digest(&self) -> Seq<u8> {
        self.inner@
    }

    /// The text shown to the owner.
    pub fn plaintext(&self) -> (text: &str)
        ensures
            text@ == self.plaintext_text(),
    {
        self.plaintext.as_str()
    }

    /// The stored form.
    pub fn inner(&self) -> (token: &SecureToken)
        ensures
            token@ == self.digest(),
    {
        &self.inner
    }

    /// Gives up the text and keeps only the stored form.
    pub fn into_inner(self) -> (token: SecureToken)
        ensures
            token@ == self.digest(),
    {
        self.inner
    }

    /// Splits the token into the text for the owner and the stored form.
    pub fn into_parts(self) -> (parts: (String, SecureToken))
        ensures
            parts.0@ == self.plaintext_text(),
            parts.1@ == self.digest(),
    {
        (self.plaintext, self.inner)
    }
}

impl SecureToken {
    /// Digest of a secret, as it is stored.
    pub fn hash(secret: &[u8]) -> (digest: Vec<u8>)
        ensures
            digest@ == sha256_digest(secret@),
    {
        sha256(secret)
    }

    /// The stored form with the given digest, as read back from storage.
    pub fn from_digest(digest: Vec<u8>) -> (token: SecureToken)
        ensures
            token@ == digest@,
    {
        SecureToken { sha256: digest }
    }

    /// The digest.
    pub fn as_bytes(&self) -> (digest: &[u8])
        ensures
            digest@ == self@,
    {
        self.sha256.as_slice()
    }

    /// Whether two stored forms hold the same digest, decided in constant
    /// time with respect to the digests' content.
    pub fn matches(&self, other: &SecureToken) -> (same: bool)
        ensures
            same == (self@ == other@),
    {
        constant_time_eq(self.sha256.as_slice(), other.sha256.as_slice())
    }

    /// Whether the bytes are a well-formed secret.
    pub fn is_valid_secret(secret: &[u8]) -> (valid: bool)
        ensures
            valid == is_secret(secret@),
    {
        if secret.len() != SECRET_LENGTH {
            return false;
        }
        let mut i: usize = 0;
        while i < secret.len()
            invariant
                i <= secret@.len(),
                forall|j: int| 0 <= j < i ==> is_alphanumeric(#[trigger] secret@[j]),
            decreases secret@.len() - i,
        {
            if !byte_is_alphanumeric(secret[i]) {
                return false;
            }
            i = i + 1;
        }
        true
    }

    /// Builds the token of `kind` for a well-formed secret.
    fn assemble(kind: SecureTokenKind, secret: &[u8]) -> (token: NewSecureToken)
        requires
            is_secret(secret@),
        ensures
            token.plaintext_bytes() == display(kind, secret@),
            token.digest() == sha256_digest(secret@),
    {
        let mut shown: Vec<u8> = kind.prefix();
        let mut i: usize = 0;
        while i < secret.len()
            invariant
                i <= secret@.len(),
                shown@ == kind.prefix_bytes() + secret@.subrange(0, i as int),
            decreases secret@.len() - i,
        {
            shown.push(secret[i]);
            assert(secret@.subrange(0, i + 1) == secret@.subrange(0, i as int).push(
                secret@[i as int],
            ));
            i = i + 1;
        }
        assert(secret@.subrange(0, i as int) == secret@);
        let ghost shown_bytes = shown@;
        assert forall|j: int| 0 <= j < shown_bytes.len() implies shown_bytes[j] < 128 by {
            if j >= kind.prefix_bytes().len() {
                assert(is_alphanumeric(secret@[j - kind.prefix_bytes().len()]));
            }
        }
        let plaintext = string_from_ascii(shown);
        proof {
            lemma_ascii_text_bytes(shown_bytes);
        }
        NewSecureToken { plaintext, inner: SecureToken { sha256: sha256(secret) } }
    }

    /// Builds the token of `kind` for a secret that is already at hand.
    /// Nothing is returned for bytes that are not a well-formed secret.
    pub fn from_secret(kind: SecureTokenKind, secret: &[u8]) -> (token: Option<NewSecureToken>)
        ensures
            token is Some <==> is_secret(secret@),
            token matches Some(t) ==> {
                &&& t.plaintext_bytes() == display(kind, secret@)
                &&& t.digest() == sha256_digest(secret@)
            },
    {
        if Self::is_valid_secret(secret) {
            Some(Self::assemble(kind, secret))
        } else {
            None
        }
    }

    /// Draws a fresh secret from the operating system's random source and
    /// builds the token of `kind` for it.
    pub fn generate(kind: SecureTokenKind) -> (token: NewSecureToken)
        ensures
            exists|secret: Seq<u8>|
                {
                    &&& is_secret(secret)
                    &&& token.plaintext_bytes() == #[trigger] display(kind, secret)
                    &&& token.digest() == sha256_digest(secret)
                },
            parsed(kind, token.plaintext_bytes()) == Some(token.digest()),
    {
        let mut secret: Vec<u8> = Vec::new();
        while secret.len() < SECRET_LENGTH
            invariant
                secret@.len() <= SECRET_LENGTH,
                forall|j: int| 0 <= j < secret@.len() ==> is_alphanumeric(#[trigger] secret@[j]),
            decreases SECRET_LENGTH - secret@.len(),
        {
            let index = random_below(ALPHABET_SIZE);
            secret.push(alphabet_char(index));
        }
        proof {
            lemma_display_round_trip(kind, secret@);
        }
        Self::assemble(kind, secret.as_slice())
    }

    /// Recognises a presented string as a token of `kind` and gives its
    /// stored form. A string of any other shape is not of this kind.
    pub fn parse(kind: SecureTokenKind, plaintext: &str) -> (token: Option<SecureToken>)
        ensures
            match token {
                Some(t) => parsed(kind, encode_utf8(plaintext@)) == Some(t@),
                None => parsed(kind, encode_utf8(plaintext@)) is None,
            },
    {
        let bytes = plaintext.as_bytes();
        if !kind.is_shape_of(bytes) {
            return None;
        }
        let prefix_length = kind.prefix().len();
        let secret = vstd::slice::slice_subrange(bytes, prefix_length, bytes.len());
        Some(SecureToken { sha256: sha256(secret) })
    }
}

/// A displayed token is recognised under its own kind, with the digest of
/// the secret it was made from.
pub proof fn lemma_display_round_trip(kind: SecureTokenKind, secret: Seq<u8>)
    requires
        is_secret(secret),
    ensures
        has_shape(kind, display(kind, secret)),
        secret_part(kind, display(kind, secret)) == secret,
        parsed(kind, display(kind, secret)) == Some(sha256_digest(secret)),
{
    let shown = display(kind, secret);
    let prefix = kind.prefix_bytes();
    assert(shown.subrange(0, prefix.len() as int) =~= prefix);
    assert(shown.subrange(prefix.len() as int, shown.len() as int) =~= secret);
}

/// A token displayed for one kind is never recognised under another kind.
pub proof fn lemma_kinds_do_not_overlap(
    made_for: SecureTokenKind,
    read_as: SecureTokenKind,
    secret: Seq<u8>,
)
    requires
        is_secret(secret),
        made_for != read_as,
    ensures
        parsed(read_as, display(made_for, secret)) is None,
{
}

/// No string has the shape of two different kinds.
pub proof fn lemma_shape_determines_kind(a: SecureTokenKind, b: SecureTokenKind, presented: Seq<u8>)
    requires
        has_shape(a, presented),
        has_shape(b, presented),
    ensures
        a == b,
{
}

} // verus!
