use tablec::error::ConvertError;
use tablec::pipeline::{converter, execute, Parameters};
use tablec::policy::SplitPolicy;
use tablec::record::Record;
use tablec::transform::{Converter, SplitCommand};

fn b(s: &str) -> Vec<u8> {
    s.as_bytes().to_vec()
}

fn rec(parts: &[&str]) -> Record {
    Record::from_fields(parts.iter().map(|p| b(p)).collect())
}

fn fields_of(r: &Record) -> Vec<Vec<u8>> {
    let mut out = Vec::new();
    let mut i = 0;
    while let Some(f) = r.get(i) {
        out.push(f.clone());
        i += 1;
    }
    out
}

fn cmd(col: usize, sep: &str, policy: SplitPolicy) -> SplitCommand {
    SplitCommand::new(col, b(sep), policy).unwrap()
}

#[test]
fn record_positional_access() {
    let r = rec(&["a", "b", "c"]);
    assert_eq!(r.len(), 3);
    assert_eq!(r.get(0), Some(&b("a")));
    assert_eq!(r.get(2), Some(&b("c")));
    assert_eq!(r.get(3), None);
}

#[test]
fn invalid_command_zero_column() {
    let r = SplitCommand::new(0, b("/"), SplitPolicy::Simple);
    assert!(matches!(r, Err(ConvertError::InvalidCommand(_))));
}

#[test]
fn invalid_command_empty_separator() {
    let r = SplitCommand::new(1, b(""), SplitPolicy::Simple);
    assert!(matches!(r, Err(ConvertError::InvalidCommand(_))));
}

#[test]
fn split_transform_expands_target_column() {
    let conv = Converter::ColumnSplit(cmd(2, "/", SplitPolicy::Simple));
    let out = conv.apply(&rec(&["1", "x/y", "3"]));
    assert_eq!(out.len(), 2);
    assert_eq!(fields_of(&out[0]), vec![b("1"), b("x"), b("3")]);
    assert_eq!(fields_of(&out[1]), vec![b("1"), b("y"), b("3")]);
}

#[test]
fn short_record_passes_through_unchanged() {
    let conv = Converter::ColumnSplit(cmd(5, "/", SplitPolicy::Simple));
    let out = conv.apply(&rec(&["a", "b"]));
    assert_eq!(out.len(), 1);
    assert_eq!(fields_of(&out[0]), vec![b("a"), b("b")]);
}

#[test]
fn transform_preserves_field_count() {
    for policy in [
        SplitPolicy::Simple,
        SplitPolicy::Suffix,
        SplitPolicy::SuffixWithEnd,
    ] {
        let conv = Converter::ColumnSplit(cmd(1, "/", policy));
        let input = rec(&["p/q/r", "keep", "also"]);
        for out in conv.apply(&input) {
            assert_eq!(out.len(), input.len());
        }
    }
}

#[test]
fn identity_converter_maps_record_to_itself() {
    let conv = converter(None);
    let out = conv.apply(&rec(&["a", "b"]));
    assert_eq!(out.len(), 1);
    assert_eq!(fields_of(&out[0]), vec![b("a"), b("b")]);
}

#[test]
fn end_to_end_simple_split() {
    let params = Parameters {
        input_format: b("csv"),
        output_format: b("csv"),
        command: Some(cmd(2, "/", SplitPolicy::Simple)),
    };
    let out = execute(&b("a,b,c\n1,x/y,3\n"), params).unwrap();
    assert_eq!(out, b("a,b,c\n1,x,3\n1,y,3\n"));
}

#[test]
fn end_to_end_identity_same_bytes() {
    let input = b("a,b,c\n1,2,3\nq,r,s\n");
    let params = Parameters {
        input_format: b("csv"),
        output_format: b("csv"),
        command: None,
    };
    let out = execute(&input, params).unwrap();
    assert_eq!(out, input);
}

#[test]
fn end_to_end_redelimits_tsv_to_csv() {
    let params = Parameters {
        input_format: b("tsv"),
        output_format: b("csv"),
        command: None,
    };
    let out = execute(&b("a\tb\n1\t2\n"), params).unwrap();
    assert_eq!(out, b("a,b\n1,2\n"));
}

#[test]
fn end_to_end_suffix_policies() {
    let params = Parameters {
        input_format: b("csv"),
        output_format: b("csv"),
        command: Some(cmd(1, "/", SplitPolicy::Suffix)),
    };
    let out = execute(&b("h\nA/B/C\n"), params).unwrap();
    assert_eq!(out, b("h\nA\nA/B\nA/B/C\n"));

    let params = Parameters {
        input_format: b("csv"),
        output_format: b("csv"),
        command: Some(cmd(1, "/", SplitPolicy::SuffixWithEnd)),
    };
    let out = execute(&b("h\nA/B/C\n"), params).unwrap();
    assert_eq!(out, b("h\nA/\nA/B/\nA/B/C\n"));
}

#[test]
fn end_to_end_short_rows_pass_through() {
    // The target column is beyond every row: the table is re-emitted as is.
    let input = b("a,b\n1,2\n");
    let params = Parameters {
        input_format: b("csv"),
        output_format: b("csv"),
        command: Some(cmd(9, "/", SplitPolicy::Simple)),
    };
    let out = execute(&input, params).unwrap();
    assert_eq!(out, input);
}

#[test]
fn parse_error_aborts_run() {
    // Ragged input: the second row has fewer fields than the header.
    let params = Parameters {
        input_format: b("csv"),
        output_format: b("csv"),
        command: None,
    };
    let r = execute(&b("a,b\nonly-one\n"), params);
    match r {
        Err(ConvertError::Parse(m)) => assert!(!m.is_empty()),
        other => panic!("expected a parse error, got {:?}", other),
    }
}
