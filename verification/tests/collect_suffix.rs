use tablec::split::{collect_suffix, split, split_simple};
use tablec::policy::SplitPolicy;

fn b(s: &str) -> Vec<u8> {
    s.as_bytes().to_vec()
}

fn bs(parts: &[&str]) -> Vec<Vec<u8>> {
    parts.iter().map(|p| b(p)).collect()
}

#[test]
fn test_collect_suffix1() {
    let s = b("/dir1/dir2/file.txt");
    let sep = b("/");
    assert_eq!(
        collect_suffix(&s, &sep, true),
        bs(&["/", "/dir1/", "/dir1/dir2/", "/dir1/dir2/file.txt"])
    );
    assert_eq!(
        collect_suffix(&s, &sep, false),
        bs(&["/dir1", "/dir1/dir2", "/dir1/dir2/file.txt"])
    );
}

#[test]
fn test_collect_suffix2() {
    let s = b("/dir1/dir2/");
    let sep = b("/");
    assert_eq!(
        collect_suffix(&s, &sep, true),
        bs(&["/", "/dir1/", "/dir1/dir2/"])
    );
    assert_eq!(collect_suffix(&s, &sep, false), bs(&["/dir1", "/dir1/dir2/"]));
}

#[test]
fn test_collect_suffix3() {
    let s = b("/");
    let sep = b("/");
    assert_eq!(collect_suffix(&s, &sep, true), bs(&["/"]));
    assert_eq!(collect_suffix(&s, &sep, false), bs(&["/"]));
}

#[test]
fn test_collect_suffix4() {
    let s = b("");
    let sep = b("/");
    assert_eq!(collect_suffix(&s, &sep, true), bs(&[""]));
    assert_eq!(collect_suffix(&s, &sep, false), bs(&[""]));
}

#[test]
fn test_collect_suffix5() {
    let s = b("abc");
    let sep = b("/");
    assert_eq!(collect_suffix(&s, &sep, true), bs(&["abc"]));
    assert_eq!(collect_suffix(&s, &sep, false), bs(&["abc"]));
}

#[test]
fn simple_split_basic() {
    assert_eq!(split_simple(&b("A/B/C"), &b("/")), bs(&["A", "B", "C"]));
    assert_eq!(split_simple(&b(""), &b("/")), bs(&[""]));
    assert_eq!(split_simple(&b("/"), &b("/")), bs(&["", ""]));
    assert_eq!(split_simple(&b("a//b"), &b("/")), bs(&["a", "", "b"]));
    assert_eq!(split_simple(&b("/x/"), &b("/")), bs(&["", "x", ""]));
}

#[test]
fn simple_split_multibyte_separator() {
    assert_eq!(split_simple(&b("a::b::c"), &b("::")), bs(&["a", "b", "c"]));
    assert_eq!(split_simple(&b("aaa"), &b("aa")), bs(&["", "a"]));
}

#[test]
fn policies_agree_when_separator_absent() {
    let s = b("plain value");
    let sep = b(",");
    assert_eq!(split(&s, &sep, &SplitPolicy::Simple), bs(&["plain value"]));
    assert_eq!(split(&s, &sep, &SplitPolicy::Suffix), bs(&["plain value"]));
    assert_eq!(
        split(&s, &sep, &SplitPolicy::SuffixWithEnd),
        bs(&["plain value"])
    );
}

#[test]
fn simple_split_rejoin_round_trip() {
    for (s, sep) in [
        ("a/b/c", "/"),
        ("/leading", "/"),
        ("trailing/", "/"),
        ("", "/"),
        ("//", "/"),
        ("no separator here", ","),
        ("x::y::z::", "::"),
    ] {
        let pieces = split_simple(&b(s), &b(sep));
        let rejoined = pieces
            .iter()
            .map(|p| String::from_utf8(p.clone()).unwrap())
            .collect::<Vec<_>>()
            .join(sep);
        assert_eq!(rejoined, s);
    }
}

#[test]
fn split_dispatches_by_policy() {
    let s = b("A/B/C");
    let sep = b("/");
    assert_eq!(split(&s, &sep, &SplitPolicy::Simple), bs(&["A", "B", "C"]));
    assert_eq!(
        split(&s, &sep, &SplitPolicy::Suffix),
        bs(&["A", "A/B", "A/B/C"])
    );
    assert_eq!(
        split(&s, &sep, &SplitPolicy::SuffixWithEnd),
        bs(&["A/", "A/B/", "A/B/C"])
    );
}
