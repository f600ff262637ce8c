//! The tagged address union: EVM 20-byte addresses and Solana base58 public
//! keys behind one abstraction, with a uniform string rendering and the
//! conversion to the chain-typed form the simulation subsystem consumes.

use vstd::prelude::*;

verus! {

/// Configuration error: an address literal does not parse.
#[derive(Clone, Copy, Debug, PartialEq, Eq, Structural)]
pub struct MalformedAddressLiteral;

/// `c` is an ASCII hexadecimal digit.
pub open spec fn is_hex_digit(c: char) -> bool {
    ||| 48 <= c as int <= 57  // '0' ..= '9'
    ||| 97 <= c as int <= 102  // 'a' ..= 'f'
    ||| 65 <= c as int <= 70  // 'A' ..= 'F'
}

/// The numeric value of a hexadecimal digit.
pub open spec fn hex_digit_val(c: char) -> int {
    if 48 <= c as int <= 57 {
        c as int - 48
    } else if 97 <= c as int <= 102 {
        c as int - 87
    } else if 65 <= c as int <= 70 {
        c as int - 55
    } else {
        0
    }
}

/// `s` is exactly 40 hexadecimal digits: an EVM address without `0x`.
pub open spec fn valid_hex_addr(s: Seq<char>) -> bool {
    s.len() == 40 && forall|i: int| 0 <= i < s.len() ==> is_hex_digit(#[trigger] s[i])
}

/// The bytes a hexadecimal address literal denotes, two digits per byte.
pub open spec fn hex_addr_of(s: Seq<char>) -> Seq<u8> {
    Seq::new((s.len() / 2) as nat, |i: int| (hex_digit_val(s[2 * i]) * 16 + hex_digit_val(s[2 * i + 1])) as u8)
}

/// The value of one hexadecimal digit, or `None` for any other character.
fn hex_digit(c: char) -> (r: Option<u8>)
    ensures
        r is Some <==> is_hex_digit(c),
        r matches Some(v) ==> v == hex_digit_val(c) && v <= 15,
{
    let u = c as u32;
    if 48 <= u && u <= 57 {
        Some((u - 48) as u8)
    } else if 97 <= u && u <= 102 {
        Some((u - 87) as u8)
    } else if 65 <= u && u <= 70 {
        Some((u - 55) as u8)
    } else {
        None
    }
}

/// Parses a 40-digit hexadecimal address literal into its 20 bytes.
pub fn parse_hex_address(s: &str) -> (r: Result<Vec<u8>, MalformedAddressLiteral>)
    ensures
        r is Ok <==> valid_hex_addr(s@),
        r matches Ok(v) ==> v@ == hex_addr_of(s@),
{
    let n = s.unicode_len();
    if n != 40 {
        return Err(MalformedAddressLiteral);
    }
    let mut out: Vec<u8> = Vec::new();
    let mut i: usize = 0;
    while i < 20
        invariant
            0 <= i <= 20,
            s@.len() == 40,
            out@.len() == i,
            forall|j: int| 0 <= j < i ==> is_hex_digit(#[trigger] s@[2 * j]),
            forall|j: int| 0 <= j < i ==> is_hex_digit(#[trigger] s@[2 * j + 1]),
            forall|j: int| 0 <= j < i ==> out@[j] == (hex_digit_val(#[trigger] s@[2 * j]) * 16 + hex_digit_val(s@[2 * j + 1])) as u8,
        decreases 20 - i,
    {
        let hi = s.get_char(2 * i);
        let lo = s.get_char(2 * i + 1);
        let hv = match hex_digit(hi) {
            Some(v) => v,
            None => {
                return Err(MalformedAddressLiteral);
            },
        };
        let lv = match hex_digit(lo) {
            Some(v) => v,
            None => {
                return Err(MalformedAddressLiteral);
            },
        };
        out.push(hv * 16 + lv);
        i += 1;
    }
    proof {
        assert forall|k: int| 0 <= k < s@.len() implies is_hex_digit(#[trigger] s@[k]) by {
            let j = k / 2;
            if k % 2 == 0 {
                assert(k == 2 * j);
                assert(is_hex_digit(s@[2 * j]));
            } else {
                assert(k == 2 * j + 1);
                assert(is_hex_digit(s@[2 * j + 1]));
            }
        }
        assert(out@ =~= hex_addr_of(s@));
    }
    Ok(out)
}

/// What `bs58` decodes a string to, when it decodes at all.
pub uninterp spec fn base58_decode_of(s: Seq<char>) -> Option<Seq<u8>>;

/// Relies on `bs58::decode(..).into_vec()` with its default Bitcoin alphabet:
/// the outcome is a function of the input characters alone; a string of valid
/// base58 digits decodes to its byte value and any other string is refused.
#[verifier::external_body]
fn base58_decode(s: &str) -> (r: Option<Vec<u8>>)
    ensures
        match base58_decode_of(s@) {
            Option::Some(m) => r matches Some(v) && v@ == m,
            Option::None => r is None,
        },
{
    match bs58::decode(s).into_vec() {
        Ok(v) => Some(v),
        Err(_) => None,
    }
}

/// The text decodes to a 32-byte Solana public key.
pub open spec fn valid_solana_address(s: Seq<char>) -> bool {
    match base58_decode_of(s) {
        Option::Some(k) => k.len() == 32,
        Option::None => false,
    }
}

/// Checks that `s` decodes to a valid 32-byte Solana public key.
pub fn is_valid_solana_address(s: &str) -> (r: bool)
    ensures
        r == valid_solana_address(s@),
{
    match base58_decode(s) {
        Some(v) => v.len() == 32,
        None => false,
    }
}

/// The EIP-55 checksummed rendering of 20 address bytes.
pub uninterp spec fn eip155_checksum_of(b: Seq<u8>) -> Seq<char>;

/// Relies on `alloy_primitives::Address`'s `Display` impl: the EIP-55
/// checksummed, `0x`-prefixed hexadecimal rendering, a function of the 20
/// address bytes alone.
#[verifier::external_body]
fn eip155_checksum_string(bytes: &Vec<u8>) -> (r: String)
    requires
        bytes@.len() == 20,
    ensures
        r@ == eip155_checksum_of(bytes@),
{
    let address = alloy_primitives::Address::from_slice(bytes.as_slice());
    address.to_string()
}

/// The mathematical value of an address: the bytes or characters it holds.
pub enum AddressV {
    Eip155(Seq<u8>),
    Solana(Seq<char>),
}

/// An asset's address as the registry tables hold it: an EVM address as its
/// 20 bytes, or a Solana public key as its base58 text.
#[derive(Clone, Debug, PartialEq, Eq, Hash)]
pub enum Eip155OrSolanaStatic {
    Eip155(Vec<u8>),
    Solana(String),
}

impl View for Eip155OrSolanaStatic {
    type V = AddressV;

    open spec fn view(&self) -> AddressV {
        match self {
            Eip155OrSolanaStatic::Eip155(v) => AddressV::Eip155(v@),
            Eip155OrSolanaStatic::Solana(s) => AddressV::Solana(s@),
        }
    }
}

/// The address is well formed: 20 bytes for an EVM address, text decoding to
/// a 32-byte key for a Solana one.
pub open spec fn address_wf(a: AddressV) -> bool {
    match a {
        AddressV::Eip155(b) => b.len() == 20,
        AddressV::Solana(s) => valid_solana_address(s),
    }
}

/// The chain-typed address the simulation and transaction-planning code
/// consumes: raw bytes for either variant.
#[derive(Clone, Debug, PartialEq, Eq, Hash)]
pub enum Eip155OrSolanaAddress {
    Eip155(Vec<u8>),
    Solana(Vec<u8>),
}

/// Copies a byte vector element by element.
fn clone_bytes(v: &Vec<u8>) -> (r: Vec<u8>)
    ensures
        r@ == v@,
{
    let mut out: Vec<u8> = Vec::new();
    let mut i: usize = 0;
    while i < v.len()
        invariant
            0 <= i <= v@.len(),
            out@ == v@.subrange(0, i as int),
        decreases v@.len() - i,
    {
        out.push(v[i]);
        proof {
            assert(out@ =~= v@.subrange(0, i + 1));
        }
        i += 1;
    }
    proof {
        assert(out@ =~= v@);
    }
    out
}

impl Eip155OrSolanaStatic {
    /// Builds the EVM variant from a 40-digit hexadecimal literal.
    pub fn eip155_from_hex(s: &str) -> (r: Result<Self, MalformedAddressLiteral>)
        ensures
            r is Ok <==> valid_hex_addr(s@),
            r matches Ok(a) ==> a@ == AddressV::Eip155(hex_addr_of(s@)),
    {
        match parse_hex_address(s) {
            Ok(v) => Ok(Eip155OrSolanaStatic::Eip155(v)),
            Err(e) => Err(e),
        }
    }

    /// Builds the Solana variant, validating that the literal decodes to a
    /// 32-byte public key.
    pub fn solana(s: &str) -> (r: Result<Self, MalformedAddressLiteral>)
        ensures
            r is Ok <==> valid_solana_address(s@),
            r matches Ok(a) ==> a@ == AddressV::Solana(s@),
    {
        if is_valid_solana_address(s) {
            Ok(Eip155OrSolanaStatic::Solana(s.to_owned()))
        } else {
            Err(MalformedAddressLiteral)
        }
    }

    /// An owned copy of the address.
    pub fn dup(&self) -> (r: Self)
        ensures
            r@ == self@,
    {
        match self {
            Eip155OrSolanaStatic::Eip155(v) => Eip155OrSolanaStatic::Eip155(clone_bytes(v)),
            Eip155OrSolanaStatic::Solana(s) => Eip155OrSolanaStatic::Solana(s.clone()),
        }
    }

    /// The uniform string rendering of either variant: checksummed
    /// hexadecimal for an EVM address, the base58 text for a Solana key.
    pub fn to_display_string(&self) -> (r: String)
        requires
            self@ matches AddressV::Eip155(b) ==> b.len() == 20,
        ensures
            self@ matches AddressV::Eip155(b) ==> r@ == eip155_checksum_of(b),
            self@ matches AddressV::Solana(s) ==> r@ == s,
    {
        match self {
            Eip155OrSolanaStatic::Eip155(v) => eip155_checksum_string(v),
            Eip155OrSolanaStatic::Solana(s) => s.clone(),
        }
    }

    /// Converts to the chain-typed form, decoding a Solana literal; fails
    /// exactly when the literal does not decode to a 32-byte key.
    pub fn into_eip155_or_solana_address(self) -> (r: Result<Eip155OrSolanaAddress, MalformedAddressLiteral>)
        ensures
            self@ matches AddressV::Eip155(b) ==> r matches Ok(a) && a@ == ChainAddressV::Eip155(b),
            self@ matches AddressV::Solana(s) ==> match base58_decode_of(s) {
                Option::Some(k) => if k.len() == 32 {
                    r matches Ok(a) && a@ == ChainAddressV::Solana(k)
                } else {
                    r is Err
                },
                Option::None => r is Err,
            },
    {
        match self {
            Eip155OrSolanaStatic::Eip155(v) => Ok(Eip155OrSolanaAddress::Eip155(v)),
            Eip155OrSolanaStatic::Solana(s) => match base58_decode(s.as_str()) {
                Some(k) => {
                    if k.len() == 32 {
                        Ok(Eip155OrSolanaAddress::Solana(k))
                    } else {
                        Err(MalformedAddressLiteral)
                    }
                },
                None => Err(MalformedAddressLiteral),
            },
        }
    }
}

/// The mathematical value of a chain-typed address: bytes either way.
pub enum ChainAddressV {
    Eip155(Seq<u8>),
    Solana(Seq<u8>),
}

impl View for Eip155OrSolanaAddress {
    type V = ChainAddressV;

    open spec fn view(&self) -> ChainAddressV {
        match self {
            Eip155OrSolanaAddress::Eip155(v) => ChainAddressV::Eip155(v@),
            Eip155OrSolanaAddress::Solana(v) => ChainAddressV::Solana(v@),
        }
    }
}

} // verus!
