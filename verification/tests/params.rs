use aart_core::params::{get, ranged, Params, PARAM_NAMES};
use aart_core::protocol::ParseError;

#[test]
fn get_reads_back_defaults() {
    let p = Params::defaults();
    assert_eq!(get(&p, "freq_min"), Ok(48));
    assert_eq!(get(&p, "freq_max"), Ok(96));
    assert_eq!(get(&p, "duty_spup"), Ok(15));
    assert_eq!(get(&p, "duty_ramp"), Ok(500));
    assert_eq!(get(&p, "duty_drag"), Ok(60));
    assert_eq!(get(&p, "timing_a"), Ok(0));
    assert_eq!(get(&p, "timing_b"), Ok(0));
    assert_eq!(get(&p, "revdir_a"), Ok(0));
    assert_eq!(get(&p, "revdir_b"), Ok(0));
}

#[test]
fn get_unknown_name_is_rejected() {
    assert_eq!(get(&Params::defaults(), "bogus"), Err(ParseError::UnknownParam));
}

#[test]
fn set_updates_the_field_and_echoes_it_back() {
    let mut p = Params::defaults();
    assert_eq!(aart_core::params::set(&mut p, "duty_drag", 80), Ok(80));
    assert_eq!(p.duty_drag, 80);
}

#[test]
fn set_rejects_out_of_range_values_rather_than_clamping() {
    let mut p = Params::defaults();
    assert_eq!(aart_core::params::set(&mut p, "timing_a", 32), Err(ParseError::OutOfRange));
    assert_eq!(p.timing_a, 0, "rejected SET must not partially apply");
    assert_eq!(aart_core::params::set(&mut p, "timing_a", -1), Err(ParseError::OutOfRange));
}

#[test]
fn set_accepts_the_documented_boundaries() {
    let mut p = Params::defaults();
    assert_eq!(aart_core::params::set(&mut p, "timing_a", 0), Ok(0));
    assert_eq!(aart_core::params::set(&mut p, "timing_a", 31), Ok(31));
    assert_eq!(aart_core::params::set(&mut p, "duty_drag", 0), Ok(0));
    assert_eq!(aart_core::params::set(&mut p, "duty_drag", 100), Ok(100));
}

#[test]
fn set_treats_revdir_as_a_zero_one_bool() {
    let mut p = Params::defaults();
    assert_eq!(aart_core::params::set(&mut p, "revdir_a", 1), Ok(1));
    assert!(p.revdir_a);
    assert_eq!(aart_core::params::set(&mut p, "revdir_a", 0), Ok(0));
    assert!(!p.revdir_a);
    assert_eq!(aart_core::params::set(&mut p, "revdir_a", 2), Err(ParseError::OutOfRange));
}

#[test]
fn set_unknown_name_is_rejected() {
    let mut p = Params::defaults();
    assert_eq!(aart_core::params::set(&mut p, "bogus", 5), Err(ParseError::UnknownParam));
}

#[test]
fn timing_a_and_timing_b_are_independent() {
    let mut p = Params::defaults();
    aart_core::params::set(&mut p, "timing_a", 10).unwrap();
    assert_eq!(p.timing_a, 10);
    assert_eq!(p.timing_b, 0, "must not cross-wire the two motors' settings");
}

#[test]
fn to_bytes_from_bytes_round_trips() {
    let mut p = Params::defaults();
    aart_core::params::set(&mut p, "timing_a", 17).unwrap();
    aart_core::params::set(&mut p, "revdir_b", 1).unwrap();
    aart_core::params::set(&mut p, "freq_max", 120).unwrap();
    let bytes = p.to_bytes();
    assert_eq!(Params::from_bytes(&bytes), Some(p));
}

#[test]
fn from_bytes_rejects_erased_flash() {
    let erased = [0xFFu8; Params::BYTE_LEN];
    assert_eq!(Params::from_bytes(&erased), None);
}

#[test]
fn from_bytes_rejects_a_too_short_buffer() {
    let bytes = Params::defaults().to_bytes();
    assert_eq!(Params::from_bytes(&bytes[..Params::BYTE_LEN - 1]), None);
}

#[test]
fn from_bytes_rejects_a_bad_magic() {
    let mut bytes = Params::defaults().to_bytes();
    bytes[0] ^= 0xFF;
    assert_eq!(Params::from_bytes(&bytes), None);
}

#[test]
fn to_bytes_has_the_documented_layout() {
    let p = Params::defaults();
    assert_eq!(
        p.to_bytes(),
        [0x54, 0x52, 0x41, 0x41, 48, 0, 96, 0, 15, 0xF4, 0x01, 60, 0, 0, 0, 0]
    );
}

#[test]
fn from_bytes_ignores_trailing_bytes() {
    let mut longer = [0u8; 20];
    longer[..16].copy_from_slice(&Params::defaults().to_bytes());
    assert_eq!(Params::from_bytes(&longer), Some(Params::defaults()));
}

#[test]
fn ranged_is_inclusive_at_both_ends() {
    assert_eq!(ranged(5, 5, 9), Ok(5));
    assert_eq!(ranged(9, 5, 9), Ok(9));
    assert_eq!(ranged(4, 5, 9), Err(ParseError::OutOfRange));
    assert_eq!(ranged(10, 5, 9), Err(ParseError::OutOfRange));
}

#[test]
fn default_is_the_compiled_in_defaults() {
    assert_eq!(Params::default(), Params::defaults());
}

#[test]
fn every_documented_range_is_enforced() {
    let mut p = Params::defaults();
    assert_eq!(aart_core::params::set(&mut p, "freq_min", 19), Err(ParseError::OutOfRange));
    assert_eq!(aart_core::params::set(&mut p, "freq_min", 150), Ok(150));
    assert_eq!(aart_core::params::set(&mut p, "freq_max", 151), Err(ParseError::OutOfRange));
    assert_eq!(aart_core::params::set(&mut p, "duty_spup", 0), Err(ParseError::OutOfRange));
    assert_eq!(aart_core::params::set(&mut p, "duty_spup", 100), Ok(100));
    assert_eq!(aart_core::params::set(&mut p, "duty_ramp", 10_000), Ok(10_000));
    assert_eq!(aart_core::params::set(&mut p, "duty_ramp", 10_001), Err(ParseError::OutOfRange));
    assert_eq!(aart_core::params::set(&mut p, "timing_b", 31), Ok(31));
    assert_eq!(aart_core::params::set(&mut p, "revdir_b", -1), Err(ParseError::OutOfRange));
    assert_eq!(get(&p, "duty_ramp"), Ok(10_000));
}

#[test]
fn every_listed_name_is_a_parameter() {
    let p = Params::defaults();
    assert_eq!(PARAM_NAMES.len(), 9);
    for name in PARAM_NAMES {
        assert!(get(&p, name).is_ok(), "{name}");
        let mut q = p;
        let v = get(&p, name).unwrap();
        assert_eq!(aart_core::params::set(&mut q, name, v), Ok(v), "{name}");
    }
}
