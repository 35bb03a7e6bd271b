//! Search for a 24-word BIP39 phrase whose first twelve words and last twelve
//! words are each a valid 12-word BIP39 phrase.
//!
//! The candidates come from a hash chain over the seed: the first is the
//! SHA-256 digest of the digest of the seed's UTF-8 bytes, each next one the
//! digest of the one before. The first candidate whose phrase splits into two
//! valid halves is taken.
use vstd::prelude::*;
use vstd::string::*;

verus! {

/// Why no phrase was found.
#[derive(Clone, Copy, Debug, PartialEq, Eq, Structural)]
pub enum MnemonicError {
    /// The entropy handed to the BIP39 encoder was not 16 to 32 bytes long in
    /// steps of four.
    InvalidEntropyLength,
    /// No candidate up to the search bound was accepted.
    SearchExhausted,
}

/// How many candidates the search tries before it gives up. Each candidate
/// is accepted with a chance of about one in 256.
pub const MAX_SEARCH_ATTEMPTS: u64 = 1000000;

/// The SHA-256 digest of `data`.
pub uninterp spec fn sha256_of(data: Seq<u8>) -> Seq<u8>;

/// The English BIP39 phrase of `entropy`, its words joined by single spaces.
pub uninterp spec fn bip39_phrase(entropy: Seq<u8>) -> Seq<char>;

/// Whether `phrase` is a valid English BIP39 phrase, its checksum included.
pub uninterp spec fn bip39_parses(phrase: Seq<char>) -> bool;

/// The number of spaces in `s`.
pub open spec fn space_count(s: Seq<char>) -> nat
    decreases s.len(),
{
    if s.len() == 0 {
        0
    } else {
        space_count(s.drop_last()) + if s.last() == ' ' {
            1nat
        } else {
            0nat
        }
    }
}

/// The characters other than `' '` that Unicode counts as white space.
pub open spec fn is_other_whitespace(c: char) -> bool {
    ('\u{9}' <= c <= '\u{d}') || c == '\u{85}' || c == '\u{a0}' || c == '\u{1680}' || (
    '\u{2000}' <= c <= '\u{200a}') || c == '\u{2028}' || c == '\u{2029}' || c == '\u{202f}'
        || c == '\u{205f}' || c == '\u{3000}'
}

/// `s` is a sequence of words joined by single spaces: not empty, no space
/// at either end, no two spaces in a row, and no other white space.
pub open spec fn single_spaced(s: Seq<char>) -> bool {
    &&& s.len() > 0
    &&& s[0] != ' '
    &&& s.last() != ' '
    &&& forall|i: int| 0 <= i < s.len() - 1 ==> !(#[trigger] s[i] == ' ' && s[i + 1] == ' ')
    &&& forall|i: int| 0 <= i < s.len() ==> !is_other_whitespace(#[trigger] s[i])
}

/// The number of words of a single-spaced phrase.
pub open spec fn word_count(s: Seq<char>) -> nat {
    space_count(s) + 1
}

/// Position `i` of `s` is the space that ends the twelfth word.
pub open spec fn is_half_boundary(s: Seq<char>, i: int) -> bool {
    0 <= i < s.len() && s[i] == ' ' && space_count(s.subrange(0, i)) == 11
}

/// The first twelve words of a single-spaced phrase and the words after
/// them, split at the space that ends the twelfth word; a phrase of exactly
/// twelve words gives itself and the empty phrase.
pub open spec fn halves(s: Seq<char>) -> (Seq<char>, Seq<char>) {
    if exists|i: int| is_half_boundary(s, i) {
        let i = choose|i: int| is_half_boundary(s, i);
        (s.subrange(0, i), s.subrange(i + 1, s.len() as int))
    } else {
        (s, Seq::empty())
    }
}

/// Both halves of `phrase` are valid phrases on their own.
pub open spec fn halves_parse(phrase: Seq<char>) -> bool {
    bip39_parses(halves(phrase).0) && bip39_parses(halves(phrase).1)
}

/// The `n`-th entropy of the hash chain over `seed`: the digest of `seed`
/// for `n == 0`, then the digest of the one before. Candidates start at 1.
pub open spec fn entropy_after(seed: Seq<u8>, n: nat) -> Seq<u8>
    decreases n,
{
    if n == 0 {
        sha256_of(seed)
    } else {
        sha256_of(entropy_after(seed, (n - 1) as nat))
    }
}

/// The `n`-th candidate of the search over `seed` is accepted.
pub open spec fn accepted(seed: Seq<u8>, n: nat) -> bool {
    halves_parse(bip39_phrase(entropy_after(seed, n)))
}

/// `n` is the first accepted candidate, within the search bound.
pub open spec fn first_accepted(seed: Seq<u8>, n: nat) -> bool {
    &&& 1 <= n <= MAX_SEARCH_ATTEMPTS
    &&& accepted(seed, n)
    &&& forall|m: nat| 1 <= m < n ==> !accepted(seed, m)
}

/// What the search over the seed bytes `seed` returns.
pub open spec fn search_outcome(seed: Seq<u8>, r: Result<Seq<char>, MnemonicError>) -> bool {
    match r {
        Ok(p) => exists|n: nat| #[trigger]
            first_accepted(seed, n) && p == bip39_phrase(entropy_after(seed, n)),
        Err(e) => e == MnemonicError::SearchExhausted && forall|n: nat|
            1 <= n <= MAX_SEARCH_ATTEMPTS ==> !#[trigger] accepted(seed, n),
    }
}

/// A search result with the phrase seen as its characters.
pub open spec fn phrase_result(r: Result<String, MnemonicError>) -> Result<Seq<char>, MnemonicError> {
    match r {
        Ok(s) => Ok(s@),
        Err(e) => Err(e),
    }
}

/// Relies on `bitcoin_hashes::sha256::Hash::hash`: the SHA-256 digest of
/// `data`, 32 bytes.
#[verifier::external_body]
fn sha256(data: &[u8]) -> (r: Vec<u8>)
    ensures
        r@ == sha256_of(data@),
        r@.len() == 32,
{
    let digest = <bitcoin_hashes::sha256::Hash as bitcoin_hashes::Hash>::hash(data);
    <bitcoin_hashes::sha256::Hash as bitcoin_hashes::Hash>::to_byte_array(digest).to_vec()
}

/// Relies on `bip39::Mnemonic::from_entropy` and its `Display`, which joins
/// the English words (lower-case letters) by single spaces, three words for
/// every four bytes. It refuses only entropy whose length is not a multiple
/// of four bytes from 16 to 32.
#[verifier::external_body]
fn phrase_from_entropy(entropy: &[u8]) -> (r: Result<String, MnemonicError>)
    ensures
        r is Ok <==> (entropy@.len() % 4 == 0 && 16 <= entropy@.len() <= 32),
        r is Ok ==> r->Ok_0@ == bip39_phrase(entropy@),
        r is Ok ==> single_spaced(r->Ok_0@),
        r is Ok ==> word_count(r->Ok_0@) == entropy@.len() * 3 / 4,
        r is Err ==> r->Err_0 == MnemonicError::InvalidEntropyLength,
{
    match bip39::Mnemonic::from_entropy(entropy) {
        Ok(m) => Ok(m.to_string()),
        Err(_) => Err(MnemonicError::InvalidEntropyLength),
    }
}

/// Relies on `bip39::Mnemonic::parse`: whether `phrase` parses as a BIP39
/// phrase, which checks its words and its checksum.
#[verifier::external_body]
fn parses_as_mnemonic(phrase: &str) -> (r: bool)
    ensures
        r == bip39_parses(phrase@),
{
    bip39::Mnemonic::parse(phrase).is_ok()
}

proof fn lemma_space_count_grows(s: Seq<char>, i: int, j: int)
    requires
        0 <= i < j <= s.len(),
        s[i] == ' ',
    ensures
        space_count(s.subrange(0, j)) > space_count(s.subrange(0, i)),
    decreases j - i,
{
    assert(s.subrange(0, j).drop_last() =~= s.subrange(0, j - 1));
    if j > i + 1 {
        lemma_space_count_grows(s, i, j - 1);
    }
}

proof fn lemma_half_boundary_unique(s: Seq<char>, i: int, j: int)
    requires
        is_half_boundary(s, i),
        is_half_boundary(s, j),
    ensures
        i == j,
{
    if i < j {
        lemma_space_count_grows(s, i, j);
    } else if j < i {
        lemma_space_count_grows(s, j, i);
    }
}

/// Splits a phrase of at least twelve words after its twelfth word: the
/// first twelve words and the words after them, each joined by single spaces.
pub fn split_mnemonic(full: &str) -> (r: (String, String))
    requires
        single_spaced(full@),
        word_count(full@) >= 12,
    ensures
        r.0@ == halves(full@).0,
        r.1@ == halves(full@).1,
{
    let n = full.unicode_len();
    let mut count: usize = 0;
    let mut i: usize = 0;
    while i < n
        invariant
            n == full@.len(),
            i <= n,
            count <= 11,
            count == space_count(full@.subrange(0, i as int)),
            forall|k: int| 0 <= k < i ==> !is_half_boundary(full@, k),
        decreases n - i,
    {
        let c = full.get_char(i);
        if c == ' ' {
            if count == 11 {
                let first = String::from_str(full.substring_char(0, i));
                let second = String::from_str(full.substring_char(i + 1, n));
                proof {
                    assert(is_half_boundary(full@, i as int));
                    let j = choose|j: int| is_half_boundary(full@, j);
                    lemma_half_boundary_unique(full@, i as int, j);
                }
                return (first, second);
            }
            count = count + 1;
        }
        i = i + 1;
        assert(full@.subrange(0, i as int).drop_last() =~= full@.subrange(0, i - 1));
    }
    (String::from_str(full), String::new())
}

/// Finds a 24-word phrase whose two 12-word halves are valid phrases on
/// their own, searching the hash chain over the UTF-8 bytes of `seed`. The
/// same seed always gives the same phrase.
pub fn double_mnemonic_from_entropy(seed: &str) -> (r: Result<String, MnemonicError>)
    ensures
        search_outcome(seed.spec_bytes(), phrase_result(r)),
        r is Ok ==> single_spaced(r->Ok_0@) && word_count(r->Ok_0@) == 24,
{
    let mut entropy = sha256(seed.as_bytes());
    let mut n: u64 = 0;
    while n < MAX_SEARCH_ATTEMPTS
        invariant
            n <= MAX_SEARCH_ATTEMPTS,
            entropy@ == entropy_after(seed.spec_bytes(), n as nat),
            entropy@.len() == 32,
            forall|m: nat| 1 <= m <= n ==> !#[trigger] accepted(seed.spec_bytes(), m),
        decreases MAX_SEARCH_ATTEMPTS - n,
    {
        entropy = sha256(entropy.as_slice());
        n = n + 1;
        let phrase = match phrase_from_entropy(entropy.as_slice()) {
            Ok(p) => p,
            Err(e) => return Err(e),
        };
        let (first, second) = split_mnemonic(phrase.as_str());
        let found = parses_as_mnemonic(first.as_str()) && parses_as_mnemonic(second.as_str());
        assert(found == accepted(seed.spec_bytes(), n as nat));
        if found {
            assert(first_accepted(seed.spec_bytes(), n as nat));
            return Ok(phrase);
        }
    }
    Err(MnemonicError::SearchExhausted)
}

/// The search is a function of the seed: two outcomes that both meet the
/// contract of [`double_mnemonic_from_entropy`] for one seed are equal.
pub proof fn lemma_search_deterministic(
    seed: Seq<u8>,
    r1: Result<Seq<char>, MnemonicError>,
    r2: Result<Seq<char>, MnemonicError>,
)
    requires
        search_outcome(seed, r1),
        search_outcome(seed, r2),
    ensures
        r1 == r2,
{
    match (r1, r2) {
        (Ok(p1), Ok(p2)) => {
            let n1 = choose|n: nat|
                #[trigger] first_accepted(seed, n) && p1 == bip39_phrase(entropy_after(seed, n));
            let n2 = choose|n: nat|
                #[trigger] first_accepted(seed, n) && p2 == bip39_phrase(entropy_after(seed, n));
            if n1 < n2 {
                assert(!accepted(seed, n1));
            } else if n2 < n1 {
                assert(!accepted(seed, n2));
            }
        },
        (Ok(p1), Err(_)) => {
            let n1 = choose|n: nat|
                #[trigger] first_accepted(seed, n) && p1 == bip39_phrase(entropy_after(seed, n));
            assert(!accepted(seed, n1));
        },
        (Err(_), Ok(p2)) => {
            let n2 = choose|n: nat|
                #[trigger] first_accepted(seed, n) && p2 == bip39_phrase(entropy_after(seed, n));
            assert(!accepted(seed, n2));
        },
        (Err(_), Err(_)) => {},
    }
}

/// The first twelve words of a phrase that the search returns, and the
/// words after them, each parse as a BIP39 phrase of its own, checksum
/// included. The phrase itself has 24 words (see the search's contract).
pub proof fn lemma_found_halves_parse(seed: Seq<u8>, phrase: Seq<char>)
    requires
        search_outcome(seed, Ok(phrase)),
    ensures
        bip39_parses(halves(phrase).0),
        bip39_parses(halves(phrase).1),
{
    let n = choose|n: nat|
        #[trigger] first_accepted(seed, n) && phrase == bip39_phrase(entropy_after(seed, n));
    assert(accepted(seed, n));
}

} // verus!
