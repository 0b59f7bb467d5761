use rig_taskmarket::text::{decimal_string, is_whitespace_char, to_lowercase, trim_str};
use rig_taskmarket::{
    bounded_message, normalize_blocked_terms, validate_address, validate_path_id, TaskmarketError,
};

fn invalid(message: &str) -> TaskmarketError {
    TaskmarketError::InvalidArgument(message.to_owned())
}

#[test]
fn whitespace_matches_std() {
    for code in 0u32..=0x10FFFF {
        if let Some(c) = char::from_u32(code) {
            assert_eq!(is_whitespace_char(c), c.is_whitespace(), "U+{code:04X}");
        }
    }
}

#[test]
fn trim_matches_std() {
    for s in ["", "   ", "a", " a ", "\u{3000}x y\u{2029}\n", "\t\u{85}héllo\u{a0}", "no-trim"] {
        assert_eq!(trim_str(s), s.trim());
    }
}

#[test]
fn decimal_and_lowercase_match_std() {
    for n in [0u128, 7, 10, 99, 1000, u64::MAX as u128, u128::MAX] {
        assert_eq!(decimal_string(n), n.to_string());
    }
    assert_eq!(to_lowercase("HUMAN_ONLY Ünïcode ΣΑΣ"), "HUMAN_ONLY Ünïcode ΣΑΣ".to_lowercase());
}

#[test]
fn path_ids_must_be_path_safe() {
    assert_eq!(validate_path_id("0xabc", "task_id"), Ok(()));
    let err = invalid("task_id must be a non-empty path-safe identifier");
    assert_eq!(validate_path_id("", "task_id"), Err(err.clone()));
    assert_eq!(validate_path_id("a/b", "task_id"), Err(err.clone()));
    assert_eq!(validate_path_id("a?b", "task_id"), Err(err.clone()));
    assert_eq!(validate_path_id("a#b", "task_id"), Err(err));
    assert_eq!(
        validate_path_id("x/", "id"),
        Err(invalid("id must be a non-empty path-safe identifier"))
    );
}

#[test]
fn addresses_must_be_evm_addresses() {
    let good = "0x00000000000000000000000000000000000000aF";
    assert_eq!(validate_address(good), Ok(()));
    let err = Err(invalid("address must be a 20-byte 0x-prefixed EVM address"));
    assert_eq!(validate_address("0x123"), err);
    assert_eq!(validate_address("0X00000000000000000000000000000000000000aF"), err);
    assert_eq!(validate_address("0x00000000000000000000000000000000000000ag"), err);
    assert_eq!(validate_address("0x00000000000000000000000000000000000000a\u{e9}"), err);
    assert_eq!(validate_address(""), err);
}

#[test]
fn blocked_terms_are_trimmed_and_lowercased() {
    let terms = vec!["  HUMAN_ONLY ".to_owned(), "Stake".to_owned()];
    assert_eq!(normalize_blocked_terms(Some(&terms)).unwrap(), vec!["human_only", "stake"]);
    assert_eq!(normalize_blocked_terms(None).unwrap(), Vec::<String>::new());
}

#[test]
fn blocked_terms_are_bounded() {
    let too_many: Vec<String> = (0..21).map(|i| format!("t{i}")).collect();
    assert_eq!(
        normalize_blocked_terms(Some(&too_many)),
        Err(invalid("blocked_terms accepts at most 20 entries"))
    );
    assert_eq!(normalize_blocked_terms(Some(&too_many[..20])).unwrap().len(), 20);
    let blank = vec!["ok".to_owned(), "   ".to_owned()];
    let err = Err(invalid("blocked terms must contain 1 to 64 characters"));
    assert_eq!(normalize_blocked_terms(Some(&blank)), err);
    let long = vec!["é".repeat(65)];
    assert_eq!(normalize_blocked_terms(Some(&long)), err);
    let just_fits = vec!["é".repeat(64)];
    assert_eq!(normalize_blocked_terms(Some(&just_fits)).unwrap(), vec!["é".repeat(64)]);
}

#[test]
fn messages_are_bounded() {
    assert_eq!(bounded_message("not found"), "not found");
    let exact = "x".repeat(1024);
    assert_eq!(bounded_message(&exact), exact);
    let long = "é".repeat(1500);
    let bounded = bounded_message(&long);
    assert_eq!(bounded.chars().count(), 1025);
    assert!(bounded.ends_with('…'));
    assert_eq!(bounded, format!("{}…", "é".repeat(1024)));
}
