//! What a token may be used for: which crates, and which kinds of endpoint.
//!
//! A crate scope is a pattern: a crate name, optionally ending in `*`, which
//! then stands for every name that starts with the part before it. Names are
//! compared after normalisation: ASCII letters in lower case, `-` read as `_`.
//! An endpoint scope is one of a closed set of endpoint categories.
//!
//! A token without a list of crate scopes covers every crate, and a token
//! without a list of endpoint scopes covers every endpoint category. A token
//! with an empty list covers nothing.

use vstd::prelude::*;
use vstd::utf8::encode_utf8;
use vstd::utf8::encode_utf8_decode_utf8;

use crate::util::token::byte_is_alphanumeric;
use crate::util::token::constant_time_eq;
use crate::util::token::is_alphanumeric;

verus! {

/// A category of endpoints that a token can be restricted to.
#[derive(Clone, Copy, Debug, PartialEq, Eq, Structural)]
pub enum EndpointScope {
    /// Publishing a crate or a version of one.
    Publish,
    /// Yanking a version and taking that back.
    Yank,
    /// Changing who owns a crate.
    ChangeOwners,
}

/// A persisted integer that stands for no endpoint scope.
#[derive(Clone, Copy, Debug, PartialEq, Eq, Structural)]
pub struct UnknownScope {
    pub code: i32,
}

/// The byte `-`.
pub const HYPHEN: u8 = 0x2d;

/// The byte `_`.
pub const UNDERSCORE: u8 = 0x5f;

/// The byte `*`, which ends a pattern that covers every name with a given start.
pub const WILDCARD: u8 = 0x2a;

/// The byte `A`.
pub const UPPER_A: u8 = 0x41;

/// The byte `Z`.
pub const UPPER_Z: u8 = 0x5a;

/// A byte that may occur in a crate name.
pub open spec fn is_name_byte(b: u8) -> bool {
    is_alphanumeric(b) || b == HYPHEN || b == UNDERSCORE
}

/// A well-formed pattern: not empty, made of name bytes, with at most one
/// `*`, which then comes last.
pub open spec fn valid_pattern(pattern: Seq<u8>) -> bool {
    &&& pattern.len() > 0
    &&& forall|i: int| 0 <= i < pattern.len() - 1 ==> is_name_byte(#[trigger] pattern[i])
    &&& (is_name_byte(pattern.last()) || pattern.last() == WILDCARD)
}

/// The normal form of one byte of a crate name.
pub open spec fn normalize_byte(b: u8) -> u8 {
    if UPPER_A <= b <= UPPER_Z {
        (b + 32) as u8
    } else if b == HYPHEN {
        UNDERSCORE
    } else {
        b
    }
}

/// The normal form of a crate name.
pub open spec fn normalized(name: Seq<u8>) -> Seq<u8> {
    Seq::new(name.len(), |i: int| normalize_byte(name[i]))
}

/// Whether a pattern ends in the wildcard.
pub open spec fn is_wildcard(pattern: Seq<u8>) -> bool {
    pattern.len() > 0 && pattern.last() == WILDCARD
}

/// Whether a pattern covers a crate name.
pub open spec fn pattern_matches(pattern: Seq<u8>, name: Seq<u8>) -> bool {
    if is_wildcard(pattern) {
        normalized(pattern.drop_last()).is_prefix_of(normalized(name))
    } else {
        normalized(pattern) == normalized(name)
    }
}

/// Whether one of the patterns covers the name.
pub open spec fn some_pattern_matches(patterns: Seq<Seq<u8>>, name: Seq<u8>) -> bool {
    exists|i: int| 0 <= i < patterns.len() && pattern_matches(#[trigger] patterns[i], name)
}

/// Whether a token with these crate scopes may act on the named crate.
pub open spec fn crate_permitted(scopes: Option<Seq<Seq<u8>>>, name: Seq<u8>) -> bool {
    match scopes {
        None => true,
        Some(patterns) => some_pattern_matches(patterns, name),
    }
}

/// Whether a token with these endpoint scopes may use an endpoint of the
/// requested category.
pub open spec fn endpoint_permitted(
    scopes: Option<Seq<EndpointScope>>,
    requested: EndpointScope,
) -> bool {
    match scopes {
        None => true,
        Some(allowed) => allowed.contains(requested),
    }
}

/// Whether a token with these scopes may use an endpoint of the requested
/// category on the named crate. A request that names no crate is held to
/// the endpoint scopes alone.
pub open spec fn permitted(
    crate_scopes: Option<Seq<Seq<u8>>>,
    endpoint_scopes: Option<Seq<EndpointScope>>,
    requested: EndpointScope,
    crate_name: Option<Seq<u8>>,
) -> bool {
    &&& endpoint_permitted(endpoint_scopes, requested)
    &&& match crate_name {
        None => true,
        Some(name) => crate_permitted(crate_scopes, name),
    }
}

/// The patterns of a list of crate scopes.
pub open spec fn patterns_of(scopes: Seq<CrateScope>) -> Seq<Seq<u8>> {
    Seq::new(scopes.len(), |i: int| scopes[i]@)
}

/// The patterns of an optional list of crate scopes.
pub open spec fn crate_scopes_view(scopes: Option<Vec<CrateScope>>) -> Option<Seq<Seq<u8>>> {
    match scopes {
        None => None,
        Some(list) => Some(patterns_of(list@)),
    }
}

/// The categories of an optional list of endpoint scopes.
pub open spec fn endpoint_scopes_view(scopes: Option<Vec<EndpointScope>>) -> Option<
    Seq<EndpointScope>,
> {
    match scopes {
        None => None,
        Some(list) => Some(list@),
    }
}

/// The bytes of an optional crate name.
pub open spec fn crate_name_view(name: Option<&str>) -> Option<Seq<u8>> {
    match name {
        None => None,
        Some(text) => Some(encode_utf8(text@)),
    }
}

/// Whether two texts are the same.
fn same_text(a: &str, b: &str) -> (same: bool)
    ensures
        same == (a@ == b@),
{
    let same = constant_time_eq(a.as_bytes(), b.as_bytes());
    proof {
        encode_utf8_decode_utf8(a@);
        encode_utf8_decode_utf8(b@);
    }
    same
}

impl EndpointScope {
    /// The tag by which a category is named in requests.
    pub open spec fn tag_text(self) -> Seq<char> {
        match self {
            EndpointScope::Publish => "publish"@,
            EndpointScope::Yank => "yank"@,
            EndpointScope::ChangeOwners => "change-owners"@,
        }
    }

    /// The category a tag names.
    pub open spec fn of_tag(tag: Seq<char>) -> Option<EndpointScope> {
        if tag == "publish"@ {
            Some(EndpointScope::Publish)
        } else if tag == "yank"@ {
            Some(EndpointScope::Yank)
        } else if tag == "change-owners"@ {
            Some(EndpointScope::ChangeOwners)
        } else {
            None
        }
    }

    /// The integer a category is persisted as.
    pub open spec fn code(self) -> int {
        match self {
            EndpointScope::Publish => 0,
            EndpointScope::Yank => 1,
            EndpointScope::ChangeOwners => 2,
        }
    }

    /// The category a persisted integer stands for.
    pub open spec fn of_code(n: int) -> Result<EndpointScope, UnknownScope> {
        if n == 0 {
            Ok(EndpointScope::Publish)
        } else if n == 1 {
            Ok(EndpointScope::Yank)
        } else if n == 2 {
            Ok(EndpointScope::ChangeOwners)
        } else {
            Err(UnknownScope { code: n as i32 })
        }
    }

    /// The tag by which this category is named in requests.
    pub fn tag(&self) -> (tag: &'static str)
        ensures
            tag@ == self.tag_text(),
    {
        match self {
            EndpointScope::Publish => "publish",
            EndpointScope::Yank => "yank",
            EndpointScope::ChangeOwners => "change-owners",
        }
    }

    /// The category a tag names, if it names one.
    pub fn from_tag(tag: &str) -> (scope: Option<EndpointScope>)
        ensures
            scope == Self::of_tag(tag@),
    {
        if same_text(tag, "publish") {
            Some(EndpointScope::Publish)
        } else if same_text(tag, "yank") {
            Some(EndpointScope::Yank)
        } else if same_text(tag, "change-owners") {
            Some(EndpointScope::ChangeOwners)
        } else {
            None
        }
    }

    /// The integer this category is persisted as.
    pub fn to_i32(self) -> (n: i32)
        ensures
            n == self.code(),
    {
        match self {
            EndpointScope::Publish => 0,
            EndpointScope::Yank => 1,
            EndpointScope::ChangeOwners => 2,
        }
    }

    /// The category a persisted integer stands for. An integer that stands
    /// for no category is reported, never replaced by a default.
    pub fn from_i32(n: i32) -> (scope: Result<EndpointScope, UnknownScope>)
        ensures
            scope == Self::of_code(n as int),
    {
        match n {
            0 => Ok(EndpointScope::Publish),
            1 => Ok(EndpointScope::Yank),
            2 => Ok(EndpointScope::ChangeOwners),
            _ => Err(UnknownScope { code: n }),
        }
    }
}

/// A pattern of crate names that a token is restricted to.
#[derive(Debug, PartialEq, Eq)]
pub struct CrateScope {
    pattern: String,
}

impl View for CrateScope {
    type V = Seq<u8>;

    closed spec fn view(&self) -> Seq<u8> {
        encode_utf8(self.pattern@)
    }
}

impl Clone for CrateScope {
    fn clone(&self) -> (copy: Self)
        ensures
            copy@ == self@,
    {
        proof {
            use_type_invariant(self);
        }
        CrateScope { pattern: self.pattern.clone() }
    }
}

/// Whether a byte may occur in a crate name.
pub fn byte_is_name_byte(b: u8) -> (r: bool)
    ensures
        r == is_name_byte(b),
{
    byte_is_alphanumeric(b) || b == HYPHEN || b == UNDERSCORE
}

/// The normal form of one byte of a crate name.
pub fn normalize(b: u8) -> (n: u8)
    ensures
        n == normalize_byte(b),
{
    if UPPER_A <= b && b <= UPPER_Z {
        b + 32
    } else if b == HYPHEN {
        UNDERSCORE
    } else {
        b
    }
}

/// Whether the pattern is well formed.
#[verifier::loop_isolation(false)]
pub fn is_valid_pattern(pattern: &str) -> (valid: bool)
    ensures
        valid == valid_pattern(encode_utf8(pattern@)),
{
    let bytes = pattern.as_bytes();
    if bytes.len() == 0 {
        return false;
    }
    let last = bytes[bytes.len() - 1];
    if !(byte_is_name_byte(last) || last == WILDCARD) {
        return false;
    }
    let mut i: usize = 0;
    while i < bytes.len() - 1
        invariant
            bytes@.len() > 0,
            i <= bytes@.len() - 1,
            forall|j: int| 0 <= j < i ==> is_name_byte(#[trigger] bytes@[j]),
        decreases bytes@.len() - i,
    {
        if !byte_is_name_byte(bytes[i]) {
            return false;
        }
        i = i + 1;
    }
    true
}

impl CrateScope {
    #[verifier::type_invariant]
    spec fn well_formed(self) -> bool {
        valid_pattern(encode_utf8(self.pattern@))
    }

    /// The scope for a pattern. A pattern that is not well formed gives none.
    pub fn new(pattern: &str) -> (scope: Option<CrateScope>)
        ensures
            scope is Some <==> valid_pattern(encode_utf8(pattern@)),
            scope matches Some(s) ==> s@ == encode_utf8(pattern@),
    {
        if is_valid_pattern(pattern) {
            Some(CrateScope { pattern: pattern.to_owned() })
        } else {
            None
        }
    }

    /// The pattern, which is always well formed.
    pub fn pattern(&self) -> (pattern: &str)
        ensures
            encode_utf8(pattern@) == self@,
            valid_pattern(self@),
    {
        proof {
            use_type_invariant(self);
        }
        self.pattern.as_str()
    }

    /// Whether this scope covers the named crate.
    #[verifier::loop_isolation(false)]
    pub fn matches(&self, crate_name: &str) -> (covered: bool)
        ensures
            covered == pattern_matches(self@, encode_utf8(crate_name@)),
    {
        let pattern = self.pattern.as_str().as_bytes();
        let name = crate_name.as_bytes();
        let wildcard = pattern.len() > 0 && pattern[pattern.len() - 1] == WILDCARD;
        let stem: usize = if wildcard {
            pattern.len() - 1
        } else {
            pattern.len()
        };
        let ghost wanted = normalized(pattern@.subrange(0, stem as int));
        let ghost given = normalized(name@);
        assert(wanted.len() == stem && given.len() == name@.len());
        if name.len() < stem || (!wildcard && name.len() != stem) {
            return false;
        }
        let mut i: usize = 0;
        while i < stem
            invariant
                i <= stem <= name@.len(),
                stem <= pattern@.len(),
                wanted == normalized(pattern@.subrange(0, stem as int)),
                given == normalized(name@),
                forall|j: int| 0 <= j < i ==> wanted[j] == given[j],
            decreases stem - i,
        {
            if normalize(pattern[i]) != normalize(name[i]) {
                assert(wanted[i as int] != given[i as int]);
                assert(!(wanted =~= given.subrange(0, stem as int))) by {
                    assert(given.subrange(0, stem as int)[i as int] == given[i as int]);
                }
                return false;
            }
            i = i + 1;
        }
        assert(wanted =~= given.subrange(0, stem as int));
        proof {
            if !wildcard {
                assert(pattern@.subrange(0, stem as int) == pattern@);
                assert(given.subrange(0, stem as int) == given);
            }
        }
        true
    }
}

/// Whether a token with these crate scopes may act on the named crate.
#[verifier::loop_isolation(false)]
pub fn crate_allowed(scopes: &Option<Vec<CrateScope>>, crate_name: &str) -> (allowed: bool)
    ensures
        allowed == crate_permitted(crate_scopes_view(*scopes), encode_utf8(crate_name@)),
{
    match scopes {
        None => true,
        Some(list) => {
            let ghost patterns = patterns_of(list@);
            let ghost name = encode_utf8(crate_name@);
            let mut i: usize = 0;
            while i < list.len()
                invariant
                    i <= list@.len(),
                    patterns == patterns_of(list@),
                    name == encode_utf8(crate_name@),
                    forall|j: int| 0 <= j < i ==> !pattern_matches(#[trigger] patterns[j], name),
                decreases list@.len() - i,
            {
                if list[i].matches(crate_name) {
                    assert(pattern_matches(patterns[i as int], name));
                    assert(0 <= i < patterns.len());
                    return true;
                }
                i = i + 1;
            }
            false
        },
    }
}

/// Whether a token with these endpoint scopes may use an endpoint of the
/// requested category.
#[verifier::loop_isolation(false)]
pub fn endpoint_allowed(scopes: &Option<Vec<EndpointScope>>, requested: EndpointScope) -> (allowed:
    bool)
    ensures
        allowed == endpoint_permitted(endpoint_scopes_view(*scopes), requested),
{
    match scopes {
        None => true,
        Some(list) => {
            let mut i: usize = 0;
            while i < list.len()
                invariant
                    i <= list@.len(),
                    forall|j: int| 0 <= j < i ==> list@[j] != requested,
                decreases list@.len() - i,
            {
                if list[i] == requested {
                    return true;
                }
                i = i + 1;
            }
            false
        },
    }
}

/// Whether a token with these scopes may use an endpoint of the requested
/// category on the named crate, or, where no crate is named, at all.
pub fn allowed(
    crate_scopes: &Option<Vec<CrateScope>>,
    endpoint_scopes: &Option<Vec<EndpointScope>>,
    requested: EndpointScope,
    crate_name: Option<&str>,
) -> (allowed: bool)
    ensures
        allowed == permitted(
            crate_scopes_view(*crate_scopes),
            endpoint_scopes_view(*endpoint_scopes),
            requested,
            crate_name_view(crate_name),
        ),
{
    if !endpoint_allowed(endpoint_scopes, requested) {
        return false;
    }
    match crate_name {
        None => true,
        Some(name) => crate_allowed(crate_scopes, name),
    }
}

/// A token without crate scopes may act on every crate.
pub proof fn lemma_no_crate_scopes_permit_every_crate(name: Seq<u8>)
    ensures
        crate_permitted(None, name),
{
}

/// A token with an empty list of crate scopes may act on no crate.
pub proof fn lemma_empty_crate_scopes_permit_no_crate(name: Seq<u8>)
    ensures
        !crate_permitted(Some(Seq::<Seq<u8>>::empty()), name),
{
}

/// A token without endpoint scopes may use endpoints of every category.
pub proof fn lemma_no_endpoint_scopes_permit_every_endpoint(requested: EndpointScope)
    ensures
        endpoint_permitted(None, requested),
{
}

/// A token with an empty list of endpoint scopes may use no endpoint.
pub proof fn lemma_empty_endpoint_scopes_permit_no_endpoint(requested: EndpointScope)
    ensures
        !endpoint_permitted(Some(Seq::<EndpointScope>::empty()), requested),
{
}

/// Whatever a list of crate scopes permits, the absence of a list permits
/// too, and likewise for endpoint scopes.
pub proof fn lemma_unrestricted_is_broadest(
    crate_scopes: Option<Seq<Seq<u8>>>,
    endpoint_scopes: Option<Seq<EndpointScope>>,
    requested: EndpointScope,
    crate_name: Option<Seq<u8>>,
)
    requires
        permitted(crate_scopes, endpoint_scopes, requested, crate_name),
    ensures
        permitted(None, endpoint_scopes, requested, crate_name),
        permitted(crate_scopes, None, requested, crate_name),
        permitted(None, None, requested, crate_name),
{
}

/// Normalising a name twice changes nothing more.
pub proof fn lemma_normalized_is_idempotent(name: Seq<u8>)
    ensures
        normalized(normalized(name)) == normalized(name),
{
    assert(normalized(normalized(name)) =~= normalized(name));
}

/// Names with the same normal form are covered by the same patterns: the
/// case of letters and the choice between `-` and `_` make no difference.
pub proof fn lemma_matching_goes_by_normal_form(pattern: Seq<u8>, a: Seq<u8>, b: Seq<u8>)
    requires
        normalized(a) == normalized(b),
    ensures
        pattern_matches(pattern, a) == pattern_matches(pattern, b),
{
}

/// A pattern that ends in the wildcard covers exactly the names that start
/// with the rest of it, up to normalisation; the pattern `*` covers every
/// name; a pattern without wildcard covers its own name.
pub proof fn lemma_wildcard_covers_prefixes(stem: Seq<u8>, rest: Seq<u8>)
    ensures
        pattern_matches(stem.push(WILDCARD), stem + rest),
        pattern_matches(seq![WILDCARD], rest),
        !is_wildcard(stem) ==> pattern_matches(stem, stem),
{
    let pattern = stem.push(WILDCARD);
    assert(pattern.drop_last() =~= stem);
    assert(normalized(stem) =~= normalized(stem + rest).subrange(0, stem.len() as int));
    assert(seq![WILDCARD].drop_last() =~= Seq::<u8>::empty());
    assert(normalized(Seq::<u8>::empty()) =~= normalized(rest).subrange(0, 0));
}

/// Every category is read back from its tag and from the integer it is
/// persisted as, and different categories have different tags and integers.
pub proof fn lemma_endpoint_scope_round_trip(scope: EndpointScope)
    ensures
        EndpointScope::of_tag(scope.tag_text()) == Some(scope),
        EndpointScope::of_code(scope.code()) == Ok::<EndpointScope, UnknownScope>(scope),
{
    reveal_strlit("publish");
    reveal_strlit("yank");
    reveal_strlit("change-owners");
    assert("publish"@.len() == 7);
    assert("yank"@.len() == 4);
    assert("change-owners"@.len() == 13);
}

/// An integer decodes to a category exactly when it is the code of one.
pub proof fn lemma_endpoint_scope_decode_is_exact(n: i32)
    ensures
        EndpointScope::of_code(n as int) is Ok <==> 0 <= n <= 2,
        EndpointScope::of_code(n as int) matches Ok(scope) ==> scope.code() == n,
        EndpointScope::of_code(n as int) matches Err(e) ==> e.code == n,
{
}

} // verus!
