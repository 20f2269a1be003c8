use on_chain_version_watcher::hasher::{bytes2hex, whitelist_upgrade_hash, whitelisted_call};

#[test]
fn call_wraps_the_code_hash() {
    assert_eq!(
        whitelisted_call(0x2c, 0x01, &[0xaa, 0xbb, 0xcc]),
        vec![0x2c, 0x03, 0x01, 0x02, 0xaa, 0xbb, 0xcc, 0x01]
    );
    assert_eq!(whitelisted_call(0, 0xff, &[]), vec![0x00, 0x03, 0xff, 0x02, 0x01]);
    let hash = [7u8; 32];
    let call = whitelisted_call(0x21, 0x01, &hash);
    assert_eq!(call.len(), 37);
    assert_eq!(&call[..4], &[0x21, 0x03, 0x01, 0x02]);
    assert_eq!(&call[4..36], &hash);
    assert_eq!(call[36], 0x01);
}

#[test]
fn bytes2hex_is_lower_case_hex_after_the_prefix() {
    assert_eq!(bytes2hex("0x", &[]), "0x");
    assert_eq!(bytes2hex("", &[]), "");
    assert_eq!(
        bytes2hex("0x", &[0x00, 0x09, 0x0a, 0x0f, 0x10, 0x9a, 0xa9, 0xff]),
        "0x00090a0f109aa9ff"
    );
    assert_eq!(bytes2hex("", &[0xab, 0xcd, 0xef]), "abcdef");
    assert_eq!(bytes2hex("0x", b"Love Jane Forever"), "0x4c6f7665204a616e6520466f7265766572");
}

#[test]
fn bytes2hex_writes_every_byte_as_array_bytes_does() {
    let all: Vec<u8> = (0u8..=255).collect();
    assert_eq!(bytes2hex("0x", &all), array_bytes::bytes2hex("0x", &all));
    assert_eq!(bytes2hex("h\u{00e9}x:", &all[..7]), array_bytes::bytes2hex("h\u{00e9}x:", &all[..7]));
}

#[test]
fn upgrade_hash_is_the_digest_of_the_call() {
    for (whitelist_pi, parachain_system_pi, wasm) in [
        (0x2cu8, 0x01u8, b"\0asm\x01\0\0\0".to_vec()),
        (0x00, 0x00, Vec::new()),
        (0xff, 0x21, vec![0x5a; 1000]),
    ] {
        let h1 = blake2_rfc::blake2b::blake2b(32, &[], &wasm);
        let mut c = vec![whitelist_pi, 0x03, parachain_system_pi, 0x02];
        c.extend_from_slice(h1.as_bytes());
        c.push(0x01);
        let h2 = blake2_rfc::blake2b::blake2b(32, &[], &c);
        let text = whitelist_upgrade_hash(whitelist_pi, parachain_system_pi, &wasm);
        assert_eq!(text, array_bytes::bytes2hex("0x", h2));
        assert_eq!(text.len(), 66);
    }
}

#[test]
fn upgrade_hash_of_an_empty_runtime() {
    // BLAKE2b-256 of the empty input, then of the call around it.
    let code_hash = [
        0x0e, 0x57, 0x51, 0xc0, 0x26, 0xe5, 0x43, 0xb2, 0xe8, 0xab, 0x2e, 0xb0, 0x60, 0x99, 0xda,
        0xa1, 0xd1, 0xe5, 0xdf, 0x47, 0x77, 0x8f, 0x77, 0x87, 0xfa, 0xab, 0x45, 0xcd, 0xf1, 0x2f,
        0xe3, 0xa8,
    ];
    assert_eq!(blake2_rfc::blake2b::blake2b(32, &[], &[]).as_bytes(), &code_hash);
    let call = whitelisted_call(0x2c, 0x01, &code_hash);
    let expected = bytes2hex("0x", blake2_rfc::blake2b::blake2b(32, &[], &call).as_bytes());
    assert_eq!(whitelist_upgrade_hash(0x2c, 0x01, &[]), expected);
    assert_ne!(whitelist_upgrade_hash(0x2c, 0x01, &[]), whitelist_upgrade_hash(0x2d, 0x01, &[]));
    assert_ne!(whitelist_upgrade_hash(0x2c, 0x01, &[]), whitelist_upgrade_hash(0x2c, 0x01, &[0]));
    assert_ne!(whitelist_upgrade_hash(0x2c, 0x01, &[]), bytes2hex("0x", &code_hash));
}
