use scip_scan::text::str_ends_with;
use scip_scan::text::str_eq;
use scip_scan::query::symbol_matches;

const SDK_SUFFIX: &str = "'launchdarkly-js-client-sdk'`/LDFlagSet#";
const COMMON_SUFFIX: &str = "'launchdarkly-js-sdk-common'`/LDFlagSet#";

#[test]
fn suffix_holds_at_the_end_only() {
    assert!(str_ends_with("scip-typescript npm x 'launchdarkly-js-client-sdk'`/LDFlagSet#", SDK_SUFFIX));
    assert!(!str_ends_with("'launchdarkly-js-client-sdk'`/LDFlagSet# trailing", SDK_SUFFIX));
}

#[test]
fn changing_one_pattern_character_stops_a_match() {
    let symbol = "pkg 'launchdarkly-js-client-sdk'`/LDFlagSet#";
    assert!(str_ends_with(symbol, SDK_SUFFIX));
    assert!(!str_ends_with(symbol, "'launchdarkly-js-client-sdk'`/LDFlagSet!"));
    assert!(!str_ends_with(symbol, "'launchdarkly-js-client-sdX'`/LDFlagSet#"));
}

#[test]
fn empty_pattern_matches_every_symbol() {
    assert!(str_ends_with("anything", ""));
    assert!(str_ends_with("", ""));
}

#[test]
fn pattern_longer_than_symbol_never_matches() {
    assert!(!str_ends_with("Set#", SDK_SUFFIX));
    assert!(!str_ends_with("", "#"));
}

#[test]
fn suffix_comparison_handles_multibyte_characters() {
    assert!(str_ends_with("caf\u{e9} men\u{fc}", "men\u{fc}"));
    assert!(!str_ends_with("caf\u{e9} men\u{fc}", "men\u{75}"));
}

#[test]
fn any_pattern_of_the_set_suffices() {
    let patterns = vec![SDK_SUFFIX.to_string(), COMMON_SUFFIX.to_string()];
    assert!(symbol_matches("a 'launchdarkly-js-client-sdk'`/LDFlagSet#", &patterns));
    assert!(symbol_matches("a 'launchdarkly-js-sdk-common'`/LDFlagSet#", &patterns));
    assert!(!symbol_matches("a 'launchdarkly-js-client-sdk'`/LDClient#", &patterns));
}

#[test]
fn empty_pattern_set_matches_nothing() {
    assert!(!symbol_matches("any symbol at all", &Vec::new()));
}

#[test]
fn string_equality_is_exact() {
    assert!(str_eq("src/a.ts", "src/a.ts"));
    assert!(!str_eq("src/a.ts", "src/a.tsx"));
    assert!(!str_eq("src/a.tsx", "src/a.ts"));
    assert!(!str_eq("src/A.ts", "src/a.ts"));
    assert!(str_eq("", ""));
}
