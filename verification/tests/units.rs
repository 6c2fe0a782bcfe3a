use pumas::units::{
    active_ratio, freq_ratio, mhz, percent, percent_of, power_mw, HZ_PER_MHZ, NS_PER_S,
    PERCENT_FULL, RATIO_ONE,
};

#[test]
fn unit_constants() {
    assert_eq!(RATIO_ONE, 1_000_000_000);
    assert_eq!(HZ_PER_MHZ, 1_000_000);
    assert_eq!(NS_PER_S, 1_000_000_000);
    assert_eq!(PERCENT_FULL, 100_000);
}

#[test]
fn active_ratio_is_the_complement() {
    assert_eq!(active_ratio(0), RATIO_ONE);
    assert_eq!(active_ratio(772_993_000), 227_007_000);
    assert_eq!(active_ratio(RATIO_ONE), 0);
    assert_eq!(active_ratio(RATIO_ONE + 1), 0);
    assert_eq!(active_ratio(u64::MAX), 0);
}

#[test]
fn mhz_divides_by_a_million() {
    assert_eq!(mhz(1_022_870_000), 1022);
    assert_eq!(mhz(999_999), 0);
    assert_eq!(mhz(1_000_000), 1);
}

#[test]
fn freq_ratio_formula() {
    assert_eq!(freq_ratio(1_046_150_000, 600, 2064), 216_157_945);
    assert_eq!(freq_ratio(600_000_000, 600, 2064), 0);
    assert_eq!(freq_ratio(1, 600, 2064), 0);
    assert_eq!(freq_ratio(2_064_000_000, 0, 2064), RATIO_ONE);
    assert_eq!(freq_ratio(3_000_000_000, 0, 1500), 2 * RATIO_ONE);
    assert_eq!(freq_ratio(u64::MAX, 0, 1), u64::MAX);
}

#[test]
fn power_formula() {
    assert_eq!(power_mw(1234, 1_000_000_000), 1234);
    assert_eq!(power_mw(250, 500_000_000), 500);
    assert_eq!(power_mw(7, 3), 2_333_333_333);
    assert_eq!(power_mw(0, 1), 0);
    assert_eq!(power_mw(u32::MAX, 1), 4_294_967_295_000_000_000);
    assert_eq!(power_mw(1, u64::MAX), 0);
}

#[test]
fn percent_formulas() {
    assert_eq!(percent(RATIO_ONE), PERCENT_FULL);
    assert_eq!(percent(92_179_000), 9217);
    assert_eq!(percent(9_999), 0);
    assert_eq!(percent_of(3000, 8000), 37_500);
    assert_eq!(percent_of(8000, 8000), PERCENT_FULL);
    assert_eq!(percent_of(0, 1), 0);
    assert_eq!(percent_of(u64::MAX, 1), u64::MAX);
}
