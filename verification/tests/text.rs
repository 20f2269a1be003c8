use on_chain_version_watcher::text::{same_text, starts_with};

#[test]
fn same_text_compares_every_character() {
    assert!(same_text("", ""));
    assert!(same_text("crab", "crab"));
    assert!(!same_text("crab", "crab "));
    assert!(!same_text("crab", "craB"));
    assert!(!same_text("crab", ""));
    assert!(!same_text("", "crab"));
    assert!(same_text("d\u{00e9}j\u{00e0}", "d\u{00e9}j\u{00e0}"));
    assert!(!same_text("d\u{00e9}j\u{00e0}", "d\u{00e9}ja"));
}

#[test]
fn starts_with_looks_at_the_front_only() {
    assert!(starts_with("koi", "koi"));
    assert!(starts_with("koi-testnet", "koi"));
    assert!(starts_with("anything", ""));
    assert!(starts_with("", ""));
    assert!(!starts_with("ko", "koi"));
    assert!(!starts_with("", "koi"));
    assert!(!starts_with("akoi", "koi"));
    assert!(!starts_with("Koi", "koi"));
    assert!(starts_with("\u{00e9}t\u{00e9}", "\u{00e9}t"));
    assert!(!starts_with("\u{00e9}t\u{00e9}", "et"));
}
