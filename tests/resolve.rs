use chain_indexer::resolver::{legacy_key, script_to_address, script_to_p2pk, ScriptError};

fn hex(s: &str) -> Vec<u8> {
    (0..s.len() / 2).map(|i| u8::from_str_radix(&s[2 * i..2 * i + 2], 16).unwrap()).collect()
}

const GENESIS_KEY: &str = "04678afdb0fe5548271967f1a67130b7105cd6a828e03909a67962e0ea1f61deb649f6bc3f4cef38c4f35504e51ec112de5c384df7ba0b8d578a4c702b6bf11d5f";

#[test]
fn standard_p2pkh_round_trip() {
    let script = hex("76a91462e907b15cbf27d5425399ebf6f0fb50ebb88f1888ac");
    assert_eq!(script_to_address(&script), Ok("1A1zP1eP5QGefi2DMPTfTL5SLmv7DivfNa".to_string()));
}

#[test]
fn standard_p2sh_round_trip() {
    let script = hex("a914b472a266d0bd89c13706a4132ccfb16f7c3b9fcb87");
    assert_eq!(script_to_address(&script), Ok("3J98t1WpEZ73CNmQviecrnyiWrnqRhWNLy".to_string()));
}

#[test]
fn standard_p2wpkh_round_trip() {
    let script = hex("0014751e76e8199196d454941c45d1b3a323f1433bd6");
    assert_eq!(
        script_to_address(&script),
        Ok("bc1qw508d6qejxtdg4y5r3zarvary0c5xw7kv8f3t4".to_string())
    );
}

#[test]
fn legacy_pubkey_with_checksig() {
    let script = hex(&format!("41{}ac", GENESIS_KEY));
    assert_eq!(script_to_address(&script), Ok("1A1zP1eP5QGefi2DMPTfTL5SLmv7DivfNa".to_string()));
}

#[test]
fn legacy_single_push() {
    let script = hex(&format!("41{}", GENESIS_KEY));
    assert_eq!(script_to_address(&script), Ok("1A1zP1eP5QGefi2DMPTfTL5SLmv7DivfNa".to_string()));
    assert_eq!(script_to_p2pk(&script), Ok("1A1zP1eP5QGefi2DMPTfTL5SLmv7DivfNa".to_string()));
}

#[test]
fn push_of_64_bytes_unclassified() {
    let script = hex(&format!("40{}", &GENESIS_KEY[2..]));
    assert_eq!(script.len(), 65);
    assert_eq!(script_to_address(&script), Err(ScriptError::Unclassified));
}

#[test]
fn invalid_key_unclassified() {
    let bad = format!("05{}", &GENESIS_KEY[2..]);
    let script = hex(&format!("41{}ac", bad));
    assert_eq!(script_to_address(&script), Err(ScriptError::Unclassified));
}

#[test]
fn compressed_pubkey_not_indexed() {
    let script = hex("2102a1633cafcc01ebfb6d78e39f687a1f0995c62fc95f51ead10a02ee0be551b5dcac");
    assert_eq!(script_to_address(&script), Err(ScriptError::Unclassified));
}

#[test]
fn empty_and_trailing_scripts_unclassified() {
    assert_eq!(script_to_address(&Vec::new()), Err(ScriptError::Unclassified));
    let script = hex(&format!("41{}acac", GENESIS_KEY));
    assert_eq!(script_to_address(&script), Err(ScriptError::Unclassified));
}

#[test]
fn legacy_key_extracts_push() {
    let script = hex(&format!("41{}ac", GENESIS_KEY));
    assert_eq!(legacy_key(&script), Some(hex(GENESIS_KEY)));
    assert_eq!(legacy_key(&hex("76a914")), None);
}
