use tablec::format::{delimiter_for_format, CSV_DELIMITER, TSV_DELIMITER};
use tablec::policy::SplitPolicy;

fn b(s: &str) -> Vec<u8> {
    s.as_bytes().to_vec()
}

#[test]
fn tsv_selects_tab() {
    assert_eq!(delimiter_for_format(&b("tsv")), TSV_DELIMITER);
    assert_eq!(TSV_DELIMITER, b'\t');
}

#[test]
fn csv_selects_comma() {
    assert_eq!(delimiter_for_format(&b("csv")), CSV_DELIMITER);
    assert_eq!(CSV_DELIMITER, b',');
}

#[test]
fn unknown_format_falls_back_to_comma() {
    assert_eq!(delimiter_for_format(&b("")), CSV_DELIMITER);
    assert_eq!(delimiter_for_format(&b("tsv ")), CSV_DELIMITER);
    assert_eq!(delimiter_for_format(&b("TSV")), CSV_DELIMITER);
    assert_eq!(delimiter_for_format(&b("parquet")), CSV_DELIMITER);
}

#[test]
fn policy_names_select_policies() {
    assert_eq!(SplitPolicy::from_name(&b("simple")), SplitPolicy::Simple);
    assert_eq!(SplitPolicy::from_name(&b("suffix")), SplitPolicy::Suffix);
    assert_eq!(
        SplitPolicy::from_name(&b("suffix-end")),
        SplitPolicy::SuffixWithEnd
    );
}

#[test]
fn unknown_policy_falls_back_to_simple() {
    assert_eq!(SplitPolicy::from_name(&b("")), SplitPolicy::Simple);
    assert_eq!(SplitPolicy::from_name(&b("Suffix")), SplitPolicy::Simple);
    assert_eq!(SplitPolicy::from_name(&b("suffix-END")), SplitPolicy::Simple);
    assert_eq!(SplitPolicy::from_name(&b("anything")), SplitPolicy::Simple);
}

#[test]
fn policy_name_round_trip() {
    for p in [
        SplitPolicy::Simple,
        SplitPolicy::Suffix,
        SplitPolicy::SuffixWithEnd,
    ] {
        assert_eq!(SplitPolicy::from_name(&p.name()), p);
    }
    assert_eq!(SplitPolicy::Simple.name(), b("simple"));
    assert_eq!(SplitPolicy::Suffix.name(), b("suffix"));
    assert_eq!(SplitPolicy::SuffixWithEnd.name(), b("suffix-end"));
}

#[test]
fn default_policy_is_simple() {
    assert_eq!(SplitPolicy::default(), SplitPolicy::Simple);
}
