//! Post-quantum staking keys: the `algo:base58data` text form and the
//! Borsh encoding that the runtime's stake action expects, a key-type byte,
//! a 4-byte little-endian length and the raw key bytes.

use vstd::prelude::*;
use vstd::std_specs::iter::IteratorSpec;
use vstd::string::*;

verus! {

broadcast use vstd::string::group_string_axioms;

/// The signature schemes a staking key may use.
#[derive(Clone, Copy, Debug, PartialEq, Eq, Structural)]
pub enum KeyAlgorithm {
    MlDsa,
    FnDsa,
    SlhDsa,
}

/// Why a staking key string was refused.
#[derive(Clone, Copy, Debug, PartialEq, Eq, Structural)]
pub enum KeyError {
    /// The string has no `:` between the algorithm and the key data.
    MissingSeparator,
    /// The algorithm is none of `fndsa`, `mldsa`, `slhdsa`.
    UnknownAlgorithm,
    /// The key data is not valid base58.
    InvalidBase58,
    /// The decoded key does not have the algorithm's public-key length.
    WrongLength,
}

/// Byte length of a Borsh-encoded FN-DSA key.
pub const FNDSA_KEY_BORSH_LEN: usize = 1 + 4 + 897;
/// Byte length of a Borsh-encoded ML-DSA key.
pub const MLDSA_KEY_BORSH_LEN: usize = 1 + 4 + 1952;
/// Byte length of a Borsh-encoded SLH-DSA key.
pub const SLHDSA_KEY_BORSH_LEN: usize = 1 + 4 + 32;

impl KeyAlgorithm {
    /// The key-type discriminant of the runtime's key encoding.
    pub open spec fn type_byte(self) -> u8 {
        match self {
            KeyAlgorithm::MlDsa => 2,
            KeyAlgorithm::FnDsa => 3,
            KeyAlgorithm::SlhDsa => 4,
        }
    }

    /// The length in bytes of a raw public key of this scheme.
    pub open spec fn public_key_len(self) -> nat {
        match self {
            KeyAlgorithm::MlDsa => 1952,
            KeyAlgorithm::FnDsa => 897,
            KeyAlgorithm::SlhDsa => 32,
        }
    }

    /// The key-type discriminant of the runtime's key encoding.
    pub fn key_type_byte(&self) -> (b: u8)
        ensures
            b == self.type_byte(),
    {
        match self {
            KeyAlgorithm::MlDsa => 2,
            KeyAlgorithm::FnDsa => 3,
            KeyAlgorithm::SlhDsa => 4,
        }
    }

    /// The length in bytes of a raw public key of this scheme.
    pub fn expected_key_len(&self) -> (n: usize)
        ensures
            n == self.public_key_len(),
    {
        match self {
            KeyAlgorithm::MlDsa => 1952,
            KeyAlgorithm::FnDsa => 897,
            KeyAlgorithm::SlhDsa => 32,
        }
    }
}

/// The algorithm that a name in a key string stands for.
pub open spec fn algorithm_named(name: Seq<char>) -> Option<KeyAlgorithm> {
    if name == seq!['m', 'l', 'd', 's', 'a'] {
        Some(KeyAlgorithm::MlDsa)
    } else if name == seq!['f', 'n', 'd', 's', 'a'] {
        Some(KeyAlgorithm::FnDsa)
    } else if name == seq!['s', 'l', 'h', 'd', 's', 'a'] {
        Some(KeyAlgorithm::SlhDsa)
    } else {
        None
    }
}

/// `n` as four little-endian bytes.
pub open spec fn u32_le_bytes(n: nat) -> Seq<u8> {
    seq![
        (n % 256) as u8,
        ((n / 256) % 256) as u8,
        ((n / 65536) % 256) as u8,
        ((n / 16777216) % 256) as u8,
    ]
}

/// The Borsh encoding of a raw public key of scheme `algo`.
pub open spec fn borsh_key(algo: KeyAlgorithm, raw: Seq<u8>) -> Seq<u8> {
    seq![algo.type_byte()] + u32_le_bytes(raw.len()) + raw
}

/// The encoded key, or the refusal, for the outcome of decoding the base58 data.
pub open spec fn key_encoding(algo: KeyAlgorithm, decoded: Option<Seq<u8>>) -> Result<Seq<u8>, KeyError> {
    match decoded {
        None => Err(KeyError::InvalidBase58),
        Some(raw) => if raw.len() == algo.public_key_len() {
            Ok(borsh_key(algo, raw))
        } else {
            Err(KeyError::WrongLength)
        },
    }
}

/// `i` is the position of the first `:` in `s`.
pub open spec fn is_first_separator(s: Seq<char>, i: int) -> bool {
    &&& 0 <= i < s.len()
    &&& s[i] == ':'
    &&& forall|j: int| 0 <= j < i ==> s[j] != ':'
}

/// What a key string parses to, given what the base58 data decodes to.
pub open spec fn parsed_key(s: Seq<char>) -> Result<Seq<u8>, KeyError> {
    if exists|i: int| is_first_separator(s, i) {
        let i = choose|i: int| is_first_separator(s, i);
        match algorithm_named(s.subrange(0, i)) {
            None => Err(KeyError::UnknownAlgorithm),
            Some(algo) => key_encoding(algo, bs58_decoded(s.subrange(i + 1, s.len() as int))),
        }
    } else {
        Err(KeyError::MissingSeparator)
    }
}

/// A byte vector's result taken by its view.
pub open spec fn bytes_result_view<E>(r: Result<Vec<u8>, E>) -> Result<Seq<u8>, E> {
    match r {
        Ok(v) => Ok(v@),
        Err(e) => Err(e),
    }
}

/// A key length that the stake action accepts: that of an encoded FN-DSA,
/// ML-DSA or SLH-DSA key.
pub open spec fn supported_key_len(n: nat) -> bool {
    n == FNDSA_KEY_BORSH_LEN || n == MLDSA_KEY_BORSH_LEN || n == SLHDSA_KEY_BORSH_LEN
}

/// The bytes that `bs58::decode` with the default (Bitcoin) alphabet makes
/// of a string, or `None` where it refuses the string.
pub uninterp spec fn bs58_decoded(s: Seq<char>) -> Option<Seq<u8>>;

#[verifier::external_type_specification]
#[verifier::external_body]
pub struct ExBase58DecodeError(bs58::decode::Error);

/// Calls `bs58::decode(s).into_vec()`.  Claimed: it succeeds exactly where
/// `bs58_decoded` is `Some`, and then returns those bytes; which error it
/// returns is not described.
#[verifier::external_body]
fn base58_decode(s: &str) -> (r: Result<Vec<u8>, bs58::decode::Error>)
    ensures
        r is Ok <==> bs58_decoded(s@) is Some,
        r matches Ok(v) ==> bs58_decoded(s@) == Some(v@),
{
    bs58::decode(s).into_vec()
}

/// Whether two strings hold the same characters.
pub(crate) fn str_equal(a: &str, b: &str) -> (r: bool)
    ensures
        r == (a@ == b@),
{
    let n = a.unicode_len();
    if n != b.unicode_len() {
        return false;
    }
    let mut i: usize = 0;
    while i < n
        invariant
            n == a@.len(),
            n == b@.len(),
            i <= n,
            forall|j: int| 0 <= j < i ==> a@[j] == b@[j],
        decreases n - i,
    {
        if a.get_char(i) != b.get_char(i) {
            return false;
        }
        i = i + 1;
    }
    assert(a@ =~= b@);
    true
}

/// The algorithm a name stands for: `mldsa`, `fndsa` or `slhdsa`.
pub fn parse_algorithm(name: &str) -> (r: Option<KeyAlgorithm>)
    ensures
        r == algorithm_named(name@),
{
    proof {
        reveal_strlit("mldsa");
        reveal_strlit("fndsa");
        reveal_strlit("slhdsa");
        assert("mldsa"@ =~= seq!['m', 'l', 'd', 's', 'a']);
        assert("fndsa"@ =~= seq!['f', 'n', 'd', 's', 'a']);
        assert("slhdsa"@ =~= seq!['s', 'l', 'h', 'd', 's', 'a']);
    }
    if str_equal(name, "mldsa") {
        Some(KeyAlgorithm::MlDsa)
    } else if str_equal(name, "fndsa") {
        Some(KeyAlgorithm::FnDsa)
    } else if str_equal(name, "slhdsa") {
        Some(KeyAlgorithm::SlhDsa)
    } else {
        None
    }
}

/// Encodes a decoded public key for the stake action: refuses data that was
/// not valid base58 (`None`) and keys of the wrong length for `algo`,
/// and otherwise returns the type byte, the length as 4 little-endian bytes
/// and the key.
pub fn encode_staking_key(algo: KeyAlgorithm, decoded: Option<Vec<u8>>) -> (r: Result<Vec<u8>, KeyError>)
    ensures
        bytes_result_view(r) == key_encoding(
            algo,
            match decoded {
                Some(v) => Some(v@),
                None => None,
            },
        ),
{
    let mut key_bytes = match decoded {
        None => return Err(KeyError::InvalidBase58),
        Some(v) => v,
    };
    let expected_len = algo.expected_key_len();
    if key_bytes.len() != expected_len {
        return Err(KeyError::WrongLength);
    }
    let n: usize = key_bytes.len();
    let mut result: Vec<u8> = Vec::with_capacity(1 + 4 + n);
    result.push(algo.key_type_byte());
    result.push((n % 256) as u8);
    result.push(((n / 256) % 256) as u8);
    result.push(((n / 65536) % 256) as u8);
    result.push(((n / 16777216) % 256) as u8);
    let ghost raw = key_bytes@;
    result.append(&mut key_bytes);
    assert(result@ =~= borsh_key(algo, raw));
    Ok(result)
}

/// Position of the first `:` in `s`, if any.
fn find_separator(s: &str) -> (r: Option<usize>)
    ensures
        match r {
            Some(i) => is_first_separator(s@, i as int),
            None => forall|j: int| 0 <= j < s@.len() ==> s@[j] != ':',
        },
{
    let n = s.unicode_len();
    let mut it = s.chars();
    let mut i: usize = 0;
    loop
        invariant
            n == s@.len(),
            i <= n,
            it.remaining() == s@.skip(i as int),
            forall|j: int| 0 <= j < i ==> s@[j] != ':',
        decreases n - i,
    {
        match it.next() {
            Some(c) => {
                assert(s@.skip(i as int)[0] == s@[i as int]);
                if c == ':' {
                    return Some(i);
                }
                assert(s@.skip(i as int).drop_first() =~= s@.skip(i + 1));
                i = i + 1;
            },
            None => {
                return None;
            },
        }
    }
}

/// Parses a staking key `algo:base58data` into the Borsh encoding of the
/// public key.  Refuses a string without `:`, an algorithm other than
/// `fndsa`, `mldsa` and `slhdsa`, key data that is not base58, and a key
/// of the wrong length for its algorithm (897, 1952 and 32 bytes).
pub fn parse_key_string(key_str: &str) -> (r: Result<Vec<u8>, KeyError>)
    ensures
        bytes_result_view(r) == parsed_key(key_str@),
{
    let colon = match find_separator(key_str) {
        None => return Err(KeyError::MissingSeparator),
        Some(i) => i,
    };
    let n = key_str.unicode_len();
    proof {
        let s = key_str@;
        let i = colon as int;
        assert forall|k: int| is_first_separator(s, k) implies k == i by {
            if k < i {
                assert(s[k] != ':');
            } else if k > i {
                assert(s[i] != ':');
            }
        }
    }
    let algo_name = key_str.substring_char(0, colon);
    let data = key_str.substring_char(colon + 1, n);
    let algo = match parse_algorithm(algo_name) {
        None => return Err(KeyError::UnknownAlgorithm),
        Some(a) => a,
    };
    let decoded = match base58_decode(data) {
        Ok(v) => Some(v),
        Err(_) => None,
    };
    encode_staking_key(algo, decoded)
}

/// A Borsh-encoded key has a length that the stake action accepts.
pub fn is_supported_key_length(len: usize) -> (r: bool)
    ensures
        r == supported_key_len(len as nat),
{
    len == FNDSA_KEY_BORSH_LEN || len == MLDSA_KEY_BORSH_LEN || len == SLHDSA_KEY_BORSH_LEN
}

/// Every key that `parse_key_string` accepts has a length that the stake
/// action accepts.
pub proof fn lemma_parsed_key_supported(s: Seq<char>)
    ensures
        parsed_key(s) matches Ok(bytes) ==> supported_key_len(bytes.len()),
{
}

} // verus!
