//! CAIP-2 chain identifiers, the universal key of both registries.

use vstd::prelude::*;

verus! {

/// Configuration error: a chain identifier is not of the form
/// `namespace:reference` with a known namespace and a non-empty reference.
#[derive(Clone, Copy, Debug, PartialEq, Eq, Structural)]
pub struct InvalidChainId;

/// `s` starts with the prefix `p`.
pub open spec fn starts_with(s: Seq<char>, p: Seq<char>) -> bool {
    p.len() <= s.len() && s.subrange(0, p.len() as int) == p
}

/// The chain namespaces this gateway knows. Both have six characters, so a
/// valid identifier always carries its separating colon at index 6.
pub open spec fn known_namespace(ns: Seq<char>) -> bool {
    ns == "eip155"@ || ns == "solana"@
}

/// A valid CAIP-2 identifier: a known namespace, a colon, and a non-empty
/// reference.
pub open spec fn valid_chain_id(s: Seq<char>) -> bool {
    &&& s.len() >= 8
    &&& s[6] == ':'
    &&& known_namespace(s.subrange(0, 6))
}

/// `s` starts with `p`, checked character by character.
pub fn has_prefix(s: &str, p: &str) -> (r: bool)
    ensures
        r == starts_with(s@, p@),
{
    let n = p.unicode_len();
    if s.unicode_len() < n {
        return false;
    }
    let mut i: usize = 0;
    while i < n
        invariant
            0 <= i <= n,
            n == p@.len(),
            n <= s@.len(),
            forall|j: int| 0 <= j < i ==> s@[j] == p@[j],
        decreases n - i,
    {
        if s.get_char(i) != p.get_char(i) {
            proof {
                assert(s@.subrange(0, n as int)[i as int] == s@[i as int]);
            }
            return false;
        }
        i += 1;
    }
    proof {
        assert(s@.subrange(0, n as int) =~= p@);
    }
    true
}

/// Checks the full CAIP-2 shape of `s`.
pub fn is_valid_chain_id_str(s: &str) -> (r: bool)
    ensures
        r == valid_chain_id(s@),
{
    proof {
        reveal_strlit("eip155");
        reveal_strlit("solana");
    }
    let n = s.unicode_len();
    if n < 8 {
        return false;
    }
    if s.get_char(6) != ':' {
        return false;
    }
    let e = has_prefix(s, "eip155");
    let o = has_prefix(s, "solana");
    proof {
        assert(starts_with(s@, "eip155"@) == (s@.subrange(0, 6) == "eip155"@));
        assert(starts_with(s@, "solana"@) == (s@.subrange(0, 6) == "solana"@));
    }
    e || o
}

/// A validated CAIP-2 chain identifier such as `eip155:10`. Immutable;
/// created from a literal while the registries are built.
#[derive(Debug, PartialEq, Eq, Hash)]
pub struct ChainId {
    text: String,
}

impl View for ChainId {
    type V = Seq<char>;

    closed spec fn view(&self) -> Seq<char> {
        self.text@
    }
}

impl ChainId {
    /// Every value of the type holds a valid identifier.
    #[verifier::type_invariant]
    pub closed spec fn inv(self) -> bool {
        valid_chain_id(self.text@)
    }

    /// Validates `s` and wraps it; rejects anything but
    /// `namespace:reference` with a known namespace.
    pub fn parse(s: &str) -> (r: Result<ChainId, InvalidChainId>)
        ensures
            r is Ok <==> valid_chain_id(s@),
            r matches Ok(c) ==> c@ == s@,
    {
        if is_valid_chain_id_str(s) {
            Ok(ChainId { text: s.to_owned() })
        } else {
            Err(InvalidChainId)
        }
    }

    /// Wraps a literal already known to be a valid identifier.
    pub fn from_literal(s: &str) -> (r: ChainId)
        requires
            valid_chain_id(s@),
        ensures
            r@ == s@,
    {
        match ChainId::parse(s) {
            Ok(c) => c,
            Err(_) => vstd::pervasive::unreached(),
        }
    }

    /// Whether two identifiers hold the same text.
    pub fn eq_chain(&self, other: &ChainId) -> (r: bool)
        ensures
            r == (self@ == other@),
    {
        self.text == other.text
    }

    /// The identifier's text.
    pub fn as_str(&self) -> (r: &str)
        ensures
            r@ == self@,
    {
        self.text.as_str()
    }

    /// An owned copy of the identifier.
    pub fn dup(&self) -> (r: ChainId)
        ensures
            r == *self,
    {
        proof {
            use_type_invariant(self);
        }
        let r = ChainId { text: self.text.clone() };
        r
    }

    /// The identifier held by any `ChainId` is valid.
    pub fn check_valid(&self)
        ensures
            valid_chain_id(self@),
    {
        proof {
            use_type_invariant(self);
        }
    }
}

} // verus!
