//! Output-script address resolution: a script's standard address when the
//! script has one, else the pay-to-public-key-hash address of the key in a
//! legacy pay-to-public-key script.
use vstd::prelude::*;

verus! {

/// The opcode that pushes the next 65 bytes.
pub const OP_PUSHBYTES_65: u8 = 0x41;

/// The opcode that checks a signature against the key on the stack.
pub const OP_CHECKSIG: u8 = 0xac;

/// Why a script has no address in the index.
#[derive(Clone, Copy, Debug, PartialEq, Eq, Structural)]
pub enum ScriptError {
    Unclassified,
}

/// The main-network address that the standard derivation gives a script,
/// if it gives one.
pub uninterp spec fn standard_address(script: Seq<u8>) -> Option<Seq<char>>;

/// The main-network pay-to-public-key-hash address of a public key given in
/// its serialized form, if the bytes are a valid key.
pub uninterp spec fn pubkey_hash_address(key: Seq<u8>) -> Option<Seq<char>>;

pub open spec fn opt_string_view(s: Option<String>) -> Option<Seq<char>> {
    match s {
        Some(a) => Some(a@),
        None => None,
    }
}

/// The key of a legacy pay-to-public-key script: a single push of 65 bytes,
/// alone or followed by OP_CHECKSIG.
pub open spec fn legacy_pubkey(script: Seq<u8>) -> Option<Seq<u8>> {
    if script.len() >= 66 && script[0] == OP_PUSHBYTES_65 && (script.len() == 66 || (
    script.len() == 67 && script[66] == OP_CHECKSIG)) {
        Some(script.subrange(1, 66))
    } else {
        None
    }
}

/// The address of the key of a legacy pay-to-public-key script.
pub open spec fn legacy_address(script: Seq<u8>) -> Result<Seq<char>, ScriptError> {
    match legacy_pubkey(script) {
        Some(key) => match pubkey_hash_address(key) {
            Some(a) => Ok(a),
            None => Err(ScriptError::Unclassified),
        },
        None => Err(ScriptError::Unclassified),
    }
}

/// The address that the index records for an output script: the standard
/// derivation first, the legacy pay-to-public-key form second.
pub open spec fn script_address(script: Seq<u8>) -> Result<Seq<char>, ScriptError> {
    match standard_address(script) {
        Some(a) => Ok(a),
        None => legacy_address(script),
    }
}

pub open spec fn result_view(r: Result<String, ScriptError>) -> Result<Seq<char>, ScriptError> {
    match r {
        Ok(a) => Ok(a@),
        Err(e) => Err(e),
    }
}

/// Relies on bitcoin's `Address::from_script` on the main network, and on
/// the address's `Display`: the address string, or `None` when the script
/// has no standard address.
#[verifier::external_body]
fn derive_standard_address(script: &Vec<u8>) -> (r: Option<String>)
    ensures
        opt_string_view(r) == standard_address(script@),
{
    let script = bitcoin::Script::from(script.clone());
    match bitcoin::Address::from_script(&script, bitcoin::Network::Bitcoin) {
        Ok(address) => Some(address.to_string()),
        Err(_) => None,
    }
}

/// Relies on bitcoin's `PublicKey::from_slice`, which rejects bytes that are
/// not a valid key, and on `Address::p2pkh` on the main network with the
/// address's `Display`.
#[verifier::external_body]
fn derive_pubkey_hash_address(key: &Vec<u8>) -> (r: Option<String>)
    ensures
        opt_string_view(r) == pubkey_hash_address(key@),
{
    match bitcoin::PublicKey::from_slice(key.as_slice()) {
        Ok(pk) => Some(bitcoin::Address::p2pkh(&pk, bitcoin::Network::Bitcoin).to_string()),
        Err(_) => None,
    }
}

/// The key pushed by a legacy pay-to-public-key script, if the script has
/// that shape.
pub fn legacy_key(script: &Vec<u8>) -> (r: Option<Vec<u8>>)
    ensures
        match legacy_pubkey(script@) {
            Some(k) => r is Some && r->0@ == k,
            None => r is None,
        },
{
    let n = script.len();
    if n < 66 || script[0] != OP_PUSHBYTES_65 {
        return None;
    }
    if n != 66 && !(n == 67 && script[66] == OP_CHECKSIG) {
        return None;
    }
    let mut key: Vec<u8> = Vec::with_capacity(65);
    let mut i: usize = 1;
    while i < 66
        invariant
            1 <= i <= 66,
            66 <= n,
            n == script@.len(),
            key@ == script@.subrange(1, i as int),
        decreases 66 - i,
    {
        key.push(script[i]);
        i = i + 1;
    }
    Some(key)
}

/// The legacy path: the pay-to-public-key-hash address of the key in a
/// pay-to-public-key script.
pub fn script_to_p2pk(script: &Vec<u8>) -> (r: Result<String, ScriptError>)
    ensures
        result_view(r) == legacy_address(script@),
{
    match legacy_key(script) {
        Some(key) => match derive_pubkey_hash_address(&key) {
            Some(a) => Ok(a),
            None => Err(ScriptError::Unclassified),
        },
        None => Err(ScriptError::Unclassified),
    }
}

/// Completes the resolution of `script` from what its standard derivation
/// gave: that address when there is one, else the legacy path.
pub fn resolve_from(standard: Option<String>, script: &Vec<u8>) -> (r: Result<String, ScriptError>)
    ensures
        result_view(r) == match opt_string_view(standard) {
            Some(a) => Ok(a),
            None => legacy_address(script@),
        },
{
    match standard {
        Some(a) => Ok(a),
        None => script_to_p2pk(script),
    }
}

/// Resolves an output script to the address the index records for it.
pub fn script_to_address(script: &Vec<u8>) -> (r: Result<String, ScriptError>)
    ensures
        result_view(r) == script_address(script@),
{
    resolve_from(derive_standard_address(script), script)
}

/// A script with a standard address resolves to exactly that address.
pub proof fn lemma_standard_round_trip(script: Seq<u8>, address: Seq<char>)
    requires
        standard_address(script) == Some(address),
    ensures
        script_address(script) == Ok::<Seq<char>, ScriptError>(address),
{
}

/// A script that pushes a 65-byte key, alone or followed by OP_CHECKSIG,
/// and has no standard address resolves to the key's pay-to-public-key-hash
/// address when the key is valid, and to `Unclassified` when it is not.
pub proof fn lemma_legacy_key_path(key: Seq<u8>)
    requires
        key.len() == 65,
    ensures
        standard_address(seq![OP_PUSHBYTES_65] + key) is None ==> script_address(
            seq![OP_PUSHBYTES_65] + key,
        ) == match pubkey_hash_address(key) {
            Some(a) => Ok::<Seq<char>, ScriptError>(a),
            None => Err(ScriptError::Unclassified),
        },
        standard_address((seq![OP_PUSHBYTES_65] + key).push(OP_CHECKSIG)) is None ==> script_address(
            (seq![OP_PUSHBYTES_65] + key).push(OP_CHECKSIG),
        ) == match pubkey_hash_address(key) {
            Some(a) => Ok::<Seq<char>, ScriptError>(a),
            None => Err(ScriptError::Unclassified),
        },
{
    let s1 = seq![OP_PUSHBYTES_65] + key;
    let s2 = s1.push(OP_CHECKSIG);
    assert(s1.subrange(1, 66) =~= key);
    assert(s2.subrange(1, 66) =~= key);
}

/// A script that pushes 64 bytes, and has no standard address, is
/// `Unclassified`; so is any script without a standard address that is not
/// a 65-byte push, alone or followed by OP_CHECKSIG.
pub proof fn lemma_other_push_unclassified(script: Seq<u8>, data: Seq<u8>)
    requires
        standard_address(script) is None,
        legacy_pubkey(script) is None || (data.len() == 64 && script == seq![0x40u8] + data),
    ensures
        script_address(script) == Err::<Seq<char>, ScriptError>(ScriptError::Unclassified),
{
}

} // verus!
