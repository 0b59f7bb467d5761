use rig_taskmarket::{usdc_to_base_units, TaskmarketError};

#[test]
fn converts_usdc_without_floating_point() {
    assert_eq!(
        usdc_to_base_units("10.5").expect("valid amount"),
        "10500000"
    );
    assert_eq!(usdc_to_base_units("0.000001").expect("valid amount"), "1");
    assert_eq!(usdc_to_base_units("12").expect("valid amount"), "12000000");
}

#[test]
fn rejects_ambiguous_usdc_amounts() {
    assert!(usdc_to_base_units("1.0000001").is_err());
    assert!(usdc_to_base_units("-1").is_err());
    assert!(usdc_to_base_units("1e3").is_err());
}

fn invalid(message: &str) -> Result<String, TaskmarketError> {
    Err(TaskmarketError::InvalidArgument(message.to_owned()))
}

#[test]
fn amount_error_messages_name_the_trimmed_value() {
    assert_eq!(usdc_to_base_units("  -1 "), invalid("invalid USDC amount `-1`"));
    assert_eq!(usdc_to_base_units("+5"), invalid("invalid USDC amount `+5`"));
    assert_eq!(usdc_to_base_units("   "), invalid("invalid USDC amount ``"));
    assert_eq!(
        usdc_to_base_units("1.0000001"),
        invalid("invalid USDC amount `1.0000001`; use at most six decimals")
    );
    assert_eq!(
        usdc_to_base_units("1e3"),
        invalid("invalid USDC amount `1e3`; use at most six decimals")
    );
    assert_eq!(
        usdc_to_base_units("1.2.3"),
        invalid("invalid USDC amount `1.2.3`; use at most six decimals")
    );
    assert_eq!(
        usdc_to_base_units(".5"),
        invalid("invalid USDC amount `.5`; use at most six decimals")
    );
}

#[test]
fn amount_edge_cases() {
    assert_eq!(usdc_to_base_units("12.").unwrap(), "12000000");
    assert_eq!(usdc_to_base_units("\t7.25\n").unwrap(), "7250000");
    assert_eq!(usdc_to_base_units("0").unwrap(), "0");
    assert_eq!(usdc_to_base_units("007.010").unwrap(), "7010000");
    assert_eq!(usdc_to_base_units("10.50").unwrap(), usdc_to_base_units("10.5").unwrap());
}

#[test]
fn amount_overflow_is_reported() {
    // u128::MAX = 340282366920938463463374607431768211455
    let max_whole = u128::MAX / 1_000_000;
    let at_limit = format!("{}.{:06}", max_whole, u128::MAX % 1_000_000);
    assert_eq!(usdc_to_base_units(&at_limit).unwrap(), u128::MAX.to_string());
    let over = format!("{}.{:06}", max_whole, u128::MAX % 1_000_000 + 1);
    assert_eq!(usdc_to_base_units(&over), invalid(&format!("USDC amount `{over}` is too large")));
    let huge = "9".repeat(60);
    assert_eq!(usdc_to_base_units(&huge), invalid(&format!("USDC amount `{huge}` is too large")));
}

#[test]
fn whole_amounts_scale_by_a_million() {
    for n in [0u128, 1, 9, 10, 42, 123456789, 1_000_000_000_000] {
        assert_eq!(usdc_to_base_units(&n.to_string()).unwrap(), (n * 1_000_000).to_string());
    }
}
