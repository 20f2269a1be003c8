//! The hash under which a runtime upgrade is whitelisted.
//!
//! The whitelist pallet is handed the hash of a call, not the call: here the call that
//! dispatches, with its preimage, the authorization of a new runtime code by the parachain
//! system pallet. The call is a handful of bytes around the hash of the code.

use vstd::prelude::*;
use vstd::string::StringExecFns;

verus! {

/// The index, in the whitelist pallet, of the call that dispatches a whitelisted call with
/// its preimage.
pub const DISPATCH_WITH_PREIMAGE: u8 = 0x03;

/// The index, in the parachain system pallet, of the call that authorizes an upgrade.
pub const AUTHORIZE_UPGRADE: u8 = 0x02;

/// The flag that makes the authorized upgrade check the version of the new runtime.
pub const CHECK_VERSION: u8 = 0x01;

/// The length of the hashes, in bytes.
pub const HASH_LEN: usize = 32;

/// The encoded call: the two pallets with their call indices, the hash of the code, and the
/// version check.
pub open spec fn call_bytes(whitelist_pi: u8, parachain_system_pi: u8, code_hash: Seq<u8>) -> Seq<
    u8,
> {
    seq![whitelist_pi, DISPATCH_WITH_PREIMAGE, parachain_system_pi, AUTHORIZE_UPGRADE] + code_hash
        + seq![CHECK_VERSION]
}

/// The lower-case hexadecimal digit of a number below sixteen.
pub open spec fn hex_digit(n: int) -> char {
    if n < 10 {
        (0x30 + n) as char
    } else {
        (0x61 + n - 10) as char
    }
}

/// Two hexadecimal digits for each byte, the high half first.
pub open spec fn hex_of(bytes: Seq<u8>) -> Seq<char>
    decreases bytes.len(),
{
    if bytes.len() == 0 {
        Seq::<char>::empty()
    } else {
        hex_of(bytes.drop_last()) + seq![
            hex_digit(bytes.last() as int / 16),
            hex_digit(bytes.last() as int % 16),
        ]
    }
}

/// The BLAKE2b digest of `data`, `nn` bytes long, under the key `key`.
pub uninterp spec fn blake2b_digest(nn: nat, key: Seq<u8>, data: Seq<u8>) -> Seq<u8>;

/// Runs `blake2_rfc::blake2b::blake2b` and copies the digest out of its result with
/// `Blake2bResult::as_bytes`. The digest is only named; of its content the contract claims
/// nothing but the length, which is the one asked for. The function panics on a length outside
/// 1 to 64 and on a key of more than 64 bytes, so neither is let in.
#[verifier::external_body]
fn blake2b(nn: usize, key: &[u8], data: &[u8]) -> (digest: Vec<u8>)
    requires
        1 <= nn <= 64,
        key@.len() <= 64,
    ensures
        digest@ == blake2b_digest(nn as nat, key@, data@),
        digest@.len() == nn,
{
    blake2_rfc::blake2b::blake2b(nn, key, data).as_bytes().to_vec()
}

/// The text of one hexadecimal digit.
fn hex_digit_text(n: u8) -> (digit: &'static str)
    requires
        n < 16,
    ensures
        digit@ == seq![hex_digit(n as int)],
{
    proof {
        reveal_strlit("0");
        reveal_strlit("1");
        reveal_strlit("2");
        reveal_strlit("3");
        reveal_strlit("4");
        reveal_strlit("5");
        reveal_strlit("6");
        reveal_strlit("7");
        reveal_strlit("8");
        reveal_strlit("9");
        reveal_strlit("a");
        reveal_strlit("b");
        reveal_strlit("c");
        reveal_strlit("d");
        reveal_strlit("e");
        reveal_strlit("f");
    }
    let digit = match n {
        0 => "0",
        1 => "1",
        2 => "2",
        3 => "3",
        4 => "4",
        5 => "5",
        6 => "6",
        7 => "7",
        8 => "8",
        9 => "9",
        10 => "a",
        11 => "b",
        12 => "c",
        13 => "d",
        14 => "e",
        _ => "f",
    };
    assert(digit@ =~= seq![hex_digit(n as int)]);
    digit
}

/// Writes `bytes` in hexadecimal after `prefix`: two lower-case digits for each byte.
pub fn bytes2hex(prefix: &str, bytes: &[u8]) -> (hex: String)
    ensures
        hex@ == prefix@ + hex_of(bytes@),
{
    let mut hex = String::from_str(prefix);
    let mut i: usize = 0;
    assert(bytes@.take(0) =~= Seq::<u8>::empty());
    assert(hex@ =~= prefix@ + hex_of(bytes@.take(0)));
    while i < bytes.len()
        invariant
            i <= bytes@.len(),
            hex@ == prefix@ + hex_of(bytes@.take(i as int)),
        decreases bytes@.len() - i,
    {
        let b: u8 = bytes[i];
        let ghost before = hex@;
        hex.append(hex_digit_text(b / 16));
        hex.append(hex_digit_text(b % 16));
        proof {
            let longer = bytes@.take(i + 1);
            assert(longer.drop_last() =~= bytes@.take(i as int));
            assert(longer.last() == b);
            assert(hex@ =~= before + seq![hex_digit(b as int / 16), hex_digit(b as int % 16)]);
            assert(hex@ =~= prefix@ + hex_of(longer));
        }
        i = i + 1;
    }
    assert(bytes@.take(bytes@.len() as int) =~= bytes@);
    hex
}

/// Encodes the call that dispatches the authorization of the code with hash `code_hash`.
pub fn whitelisted_call(whitelist_pi: u8, parachain_system_pi: u8, code_hash: &[u8]) -> (call: Vec<
    u8,
>)
    ensures
        call@ == call_bytes(whitelist_pi, parachain_system_pi, code_hash@),
{
    let mut call: Vec<u8> = Vec::new();
    call.push(whitelist_pi);
    call.push(DISPATCH_WITH_PREIMAGE);
    call.push(parachain_system_pi);
    call.push(AUTHORIZE_UPGRADE);
    let ghost head = call@;
    let mut i: usize = 0;
    while i < code_hash.len()
        invariant
            i <= code_hash@.len(),
            call@ == head + code_hash@.take(i as int),
        decreases code_hash@.len() - i,
    {
        call.push(code_hash[i]);
        assert(code_hash@.take(i + 1) =~= code_hash@.take(i as int).push(code_hash@[i as int]));
        i = i + 1;
    }
    assert(code_hash@.take(code_hash@.len() as int) =~= code_hash@);
    call.push(CHECK_VERSION);
    assert(call@ =~= call_bytes(whitelist_pi, parachain_system_pi, code_hash@));
    call
}

/// The hash of the whitelisted call for the runtime `wasm`, as the digest of the call that
/// holds the digest of the code.
pub open spec fn upgrade_hash(whitelist_pi: u8, parachain_system_pi: u8, wasm: Seq<u8>) -> Seq<u8> {
    blake2b_digest(
        HASH_LEN as nat,
        Seq::<u8>::empty(),
        call_bytes(
            whitelist_pi,
            parachain_system_pi,
            blake2b_digest(HASH_LEN as nat, Seq::<u8>::empty(), wasm),
        ),
    )
}

/// The hash to whitelist for an upgrade to the runtime `wasm`, where the two pallets have the
/// indices given, written in hexadecimal after `0x`.
pub fn whitelist_upgrade_hash(whitelist_pi: u8, parachain_system_pi: u8, wasm: &[u8]) -> (text:
    String)
    ensures
        text@ == "0x"@ + hex_of(upgrade_hash(whitelist_pi, parachain_system_pi, wasm@)),
        text@.len() == 2 + 2 * HASH_LEN,
{
    let no_key: [u8; 0] = [];
    let code_hash = blake2b(HASH_LEN, no_key.as_slice(), wasm);
    let call = whitelisted_call(whitelist_pi, parachain_system_pi, code_hash.as_slice());
    let call_hash = blake2b(HASH_LEN, no_key.as_slice(), call.as_slice());
    proof {
        assert(no_key@ =~= Seq::<u8>::empty());
        lemma_hex_len(call_hash@);
        reveal_strlit("0x");
    }
    bytes2hex("0x", call_hash.as_slice())
}

/// Hexadecimal text is twice as long as the bytes it writes.
pub proof fn lemma_hex_len(bytes: Seq<u8>)
    ensures
        hex_of(bytes).len() == 2 * bytes.len(),
    decreases bytes.len(),
{
    if bytes.len() > 0 {
        lemma_hex_len(bytes.drop_last());
    }
}

} // verus!
