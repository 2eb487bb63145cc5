use c_segment::detect::{ext_of, is_match, DetectionSpec, DirEntry};
use c_segment::errors::FormatError;
use c_segment::probe::classify_compiler;
use c_segment::template::parse_template;
use c_segment::text::{contains_sub, str_eq};
use c_segment::version::{format_version, VersionSpec};

fn file(name: &str) -> DirEntry {
    DirEntry { name: String::from(name), is_dir: false }
}

fn names(v: &[&str]) -> Vec<String> {
    v.iter().map(|s| String::from(*s)).collect()
}

fn spec(ext: &[&str], files: &[&str], folders: &[&str]) -> DetectionSpec {
    DetectionSpec {
        extensions: names(ext),
        filenames: names(files),
        foldernames: names(folders),
    }
}

#[test]
fn version_round_trip_two_components() {
    let r = format_version("3.1.0-suffix", &VersionSpec { components: 2 });
    assert_eq!(r, Ok(String::from("3.1")));
}

#[test]
fn version_tolerates_fewer_components_than_requested() {
    let r = format_version("7", &VersionSpec { components: 3 });
    assert_eq!(r, Ok(String::from("7")));
    let r = format_version("  10.2 ", &VersionSpec { components: 3 });
    assert_eq!(r, Ok(String::from("10.2")));
}

#[test]
fn version_truncates_to_major_only() {
    let r = format_version("10.2.0", &VersionSpec { components: 1 });
    assert_eq!(r, Ok(String::from("10")));
}

#[test]
fn version_stops_at_non_numeric_component() {
    let r = format_version("4.2.1rc2", &VersionSpec { components: 3 });
    assert_eq!(r, Ok(String::from("4.2")));
}

#[test]
fn version_rejects_non_numeric_input() {
    assert_eq!(
        format_version("gcc", &VersionSpec { components: 3 }),
        Err(FormatError::Version)
    );
    assert_eq!(
        format_version("", &VersionSpec { components: 3 }),
        Err(FormatError::Version)
    );
    assert_eq!(
        format_version("   ", &VersionSpec { components: 2 }),
        Err(FormatError::Version)
    );
    assert_eq!(
        format_version(".1", &VersionSpec { components: 2 }),
        Err(FormatError::Version)
    );
}

#[test]
fn classify_prefers_clang_first() {
    assert_eq!(
        classify_compiler("Apple clang version 12.0.5 (clang-1205.0.22.9)"),
        "clang"
    );
    // A banner holding both substrings still classifies as clang.
    assert_eq!(
        classify_compiler("clang, not by the Free Software Foundation"),
        "clang"
    );
}

#[test]
fn classify_recognises_gcc_banner() {
    assert_eq!(
        classify_compiler("gcc (Ubuntu 9.4.0) 9.4.0\nCopyright (C) 2019 Free Software Foundation, Inc."),
        "gcc"
    );
}

#[test]
fn classify_falls_back_to_unknown_sentinel() {
    assert_eq!(classify_compiler("tcc version 0.9.27"), "Unknown compiler");
    assert_eq!(classify_compiler(""), "Unknown compiler");
}

#[test]
fn parse_rejects_malformed_templates() {
    for bad in [
        "$",
        "$ ",
        "$(",
        "via (plain)",
        "closed]($style)",
        "[unclosed",
        "[inner]",
        "[inner](",
        "[inner]($)",
        "[inner]($style",
        "$symbol($style",
        "$symbol(style)",
        "bad \\x escape",
        "trailing \\",
    ] {
        assert!(parse_template(bad).is_err(), "{:?} should not parse", bad);
    }
}

#[test]
fn parse_accepts_escapes_as_literals() {
    let pieces = parse_template("a\\$b\\[c\\]d\\(e\\)f\\\\g").unwrap();
    assert_eq!(pieces.len(), 1);
    assert!(!pieces[0].var);
    assert_eq!(pieces[0].text, "a$b[c]d(e)f\\g");
    assert_eq!(pieces[0].style, None);
}

#[test]
fn parse_keeps_innermost_scope_style() {
    let pieces = parse_template("[a[b]($inner)c]($outer)").unwrap();
    let got: Vec<(&str, Option<&str>)> = pieces
        .iter()
        .map(|p| (p.text.as_str(), p.style.as_deref()))
        .collect();
    assert_eq!(
        got,
        vec![
            ("a", Some("outer")),
            ("b", Some("inner")),
            ("c", Some("outer")),
        ]
    );
}

#[test]
fn extension_extraction_edges() {
    assert_eq!(ext_of("any.c"), Some(String::from("c")));
    assert_eq!(ext_of("archive.tar.gz"), Some(String::from("gz")));
    assert_eq!(ext_of("Makefile"), None);
    assert_eq!(ext_of(".gitignore"), None);
    assert_eq!(ext_of("odd."), Some(String::from("")));
}

#[test]
fn detection_is_case_sensitive_and_kind_aware() {
    let d = spec(&["c"], &["Makefile"], &["build"]);
    // A directory named like a filename signal does not count as a file.
    let listing = vec![DirEntry { name: String::from("Makefile"), is_dir: true }];
    assert!(!is_match(&listing, &d));
    // Uppercase extension is a different extension.
    assert!(!is_match(&vec![file("ANY.C")], &d));
    assert!(is_match(&vec![file("any.c")], &d));
    // The folder signal needs a directory.
    assert!(!is_match(&vec![file("build")], &d));
    let folder = vec![DirEntry { name: String::from("build"), is_dir: true }];
    assert!(is_match(&folder, &d));
}

#[test]
fn empty_detection_spec_never_matches() {
    let d = spec(&[], &[], &[]);
    assert!(!is_match(&vec![file("any.c"), file("Makefile")], &d));
}

#[test]
fn text_helpers_behave() {
    assert!(str_eq("abc", "abc"));
    assert!(!str_eq("abc", "abd"));
    assert!(!str_eq("abc", "ab"));
    assert!(contains_sub("gcc (GCC) 9.4.0", "GCC"));
    assert!(!contains_sub("gcc", "clang"));
    assert!(contains_sub("anything", ""));
}
