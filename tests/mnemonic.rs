use keytools::{double_mnemonic_from_entropy, split_mnemonic};

fn words(s: &str) -> Vec<&str> {
    s.split(' ').collect()
}

fn digest(data: &[u8]) -> [u8; 32] {
    let h = <bitcoin_hashes::sha256::Hash as bitcoin_hashes::Hash>::hash(data);
    <bitcoin_hashes::sha256::Hash as bitcoin_hashes::Hash>::to_byte_array(h)
}

#[test]
fn same_seed_gives_same_phrase() {
    let a = double_mnemonic_from_entropy("test-seed").unwrap();
    let b = double_mnemonic_from_entropy("test-seed").unwrap();
    assert_eq!(a, b);
    assert_eq!(a.split(' ').count(), 24);
    let c = double_mnemonic_from_entropy("another-seed").unwrap();
    assert_ne!(a, c);
}

#[test]
fn found_phrase_has_two_valid_halves() {
    for seed in ["test-seed", "x", "", "seed with spaces", "ünïcödé"] {
        let phrase = double_mnemonic_from_entropy(seed).unwrap();
        let w = words(&phrase);
        assert_eq!(w.len(), 24);
        assert!(bip39::Mnemonic::parse(phrase.as_str()).is_ok());
        assert!(bip39::Mnemonic::parse(w[..12].join(" ")).is_ok());
        assert!(bip39::Mnemonic::parse(w[12..].join(" ")).is_ok());
    }
}

#[test]
fn search_takes_the_first_accepted_candidate() {
    let seed = "test-seed";
    let mut entropy = digest(seed.as_bytes());
    let expected = loop {
        entropy = digest(&entropy);
        let full = bip39::Mnemonic::from_entropy(&entropy).unwrap().to_string();
        let w = words(&full);
        let first = bip39::Mnemonic::parse(w[..12].join(" ")).is_ok();
        let second = bip39::Mnemonic::parse(w[12..].join(" ")).is_ok();
        if first && second {
            break full;
        }
    };
    assert_eq!(double_mnemonic_from_entropy(seed).unwrap(), expected);
}

#[test]
fn split_after_twelfth_word() {
    let full = "a b c d e f g h i j k l m n o p q r s t u v w x";
    let (first, second) = split_mnemonic(full);
    assert_eq!(first, "a b c d e f g h i j k l");
    assert_eq!(second, "m n o p q r s t u v w x");
}

#[test]
fn split_of_thirteen_words() {
    let (first, second) = split_mnemonic("w1 w2 w3 w4 w5 w6 w7 w8 w9 w10 w11 w12 w13");
    assert_eq!(first, "w1 w2 w3 w4 w5 w6 w7 w8 w9 w10 w11 w12");
    assert_eq!(second, "w13");
}

#[test]
fn split_of_twelve_words() {
    let (first, second) = split_mnemonic("a b c d e f g h i j k l");
    assert_eq!(first, "a b c d e f g h i j k l");
    assert_eq!(second, "");
}

#[test]
fn split_of_a_bip39_phrase() {
    let phrase = double_mnemonic_from_entropy("split").unwrap();
    let w: Vec<&str> = phrase.split_whitespace().collect();
    let (first, second) = split_mnemonic(&phrase);
    assert_eq!(first, w[..12].join(" "));
    assert_eq!(second, w[12..].join(" "));
}
