use c_segment::builder::{module, resolve_with_probes, Config, ModuleOutcome};
use c_segment::detect::DirEntry;
use c_segment::errors::FormatError;
use c_segment::probe::CommandRunner;
use c_segment::render::ResolvedSegment;

/// A deterministic probe stub that counts its invocations and answers by
/// the argument it was given.
struct StubRunner {
    calls: usize,
    banner: Result<String, String>,
    version: Result<String, String>,
}

impl StubRunner {
    fn ok(banner: &str, version: &str) -> StubRunner {
        StubRunner {
            calls: 0,
            banner: Ok(String::from(banner)),
            version: Ok(String::from(version)),
        }
    }

    fn failing(reason: &str) -> StubRunner {
        StubRunner {
            calls: 0,
            banner: Err(String::from(reason)),
            version: Err(String::from(reason)),
        }
    }
}

impl CommandRunner for StubRunner {
    fn run(&mut self, _name: &str, args: &Vec<String>) -> Result<String, String> {
        self.calls += 1;
        if args.first().map(|a| a.as_str()) == Some("--version") {
            self.banner.clone()
        } else {
            self.version.clone()
        }
    }
}

fn file(name: &str) -> DirEntry {
    DirEntry { name: String::from(name), is_dir: false }
}

fn dir(name: &str) -> DirEntry {
    DirEntry { name: String::from(name), is_dir: true }
}

fn seg(text: &str, style: Option<&str>) -> ResolvedSegment {
    ResolvedSegment { text: String::from(text), style: style.map(String::from) }
}

#[test]
fn folder_without_c_files() {
    let listing: Vec<DirEntry> = Vec::new();
    let mut runner = StubRunner::ok("clang version 12.0.0", "12.0.0");
    let actual = module(Some(&listing), &Config::default(), &mut runner).segments();
    let expected = None;
    assert_eq!(expected, actual);
}

#[test]
fn folder_with_c_file() {
    let listing = vec![file("any.c")];
    let mut runner = StubRunner::ok("clang version 12.0.0", "12.0.0");
    let actual = module(Some(&listing), &Config::default(), &mut runner).segments();
    let expected = Some(vec![seg("via ", None), seg("C ", Some("bold fg=149"))]);
    assert_eq!(expected, actual);
}

#[test]
fn folder_with_h_file() {
    let listing = vec![file("any.h")];
    let mut runner = StubRunner::ok("clang version 12.0.0", "12.0.0");
    let actual = module(Some(&listing), &Config::default(), &mut runner).segments();
    let expected = Some(vec![seg("via ", None), seg("C ", Some("bold fg=149"))]);
    assert_eq!(expected, actual);
}

#[test]
fn unreferenced_probe_never_runs() {
    // The default template references neither compiler variable, so the
    // probe stub must see zero calls.
    let listing = vec![file("any.c")];
    let mut runner = StubRunner::ok("clang version 12.0.0", "12.0.0");
    let outcome = module(Some(&listing), &Config::default(), &mut runner);
    assert!(outcome.segments().is_some());
    assert_eq!(runner.calls, 0);
}

#[test]
fn referenced_probes_run_once_each() {
    let listing = vec![file("any.c")];
    let mut config = Config::default();
    config.format = String::from("$compiler_name $compiler_version");
    let mut runner = StubRunner::ok("gcc (GCC) 9.4.0\nFree Software Foundation, Inc.", "9.4.0\n");
    let actual = module(Some(&listing), &config, &mut runner).segments();
    let expected = Some(vec![seg("gcc", None), seg(" ", None), seg("9.4.0", None)]);
    assert_eq!(expected, actual);
    assert_eq!(runner.calls, 2);
}

#[test]
fn empty_directory_yields_absent_regardless_of_template() {
    let listing: Vec<DirEntry> = Vec::new();
    for format in ["", "via $symbol($style)", "$compiler_name", "[$symbol]($style)"] {
        let mut config = Config::default();
        config.format = String::from(format);
        let mut runner = StubRunner::ok("clang", "1.0");
        let outcome = module(Some(&listing), &config, &mut runner);
        assert!(matches!(outcome, ModuleOutcome::NoMatch));
        assert_eq!(runner.calls, 0);
    }
}

#[test]
fn missing_listing_is_a_non_match() {
    let mut runner = StubRunner::ok("clang", "1.0");
    let outcome = module(None, &Config::default(), &mut runner);
    assert!(matches!(outcome, ModuleOutcome::NoMatch));
    assert_eq!(runner.calls, 0);
}

#[test]
fn probe_failure_degrades_to_absent_with_reason() {
    let listing = vec![file("any.c")];
    let mut config = Config::default();
    config.format = String::from("via $compiler_name");
    let mut runner = StubRunner::failing("cc: command not found");
    let outcome = module(Some(&listing), &config, &mut runner);
    match &outcome {
        ModuleOutcome::Failed(FormatError::Probe(reason)) => {
            assert_eq!(reason, "cc: command not found");
        }
        other => panic!("expected a recorded probe failure, got {:?}", other),
    }
    assert_eq!(outcome.segments(), None);
}

#[test]
fn resolving_twice_yields_identical_segments() {
    let listing = vec![file("any.c")];
    let mut config = Config::default();
    config.format = String::from("via $symbol($style) $compiler_name");
    let first = {
        let mut runner = StubRunner::ok("Apple clang version 12.0.5", "12.0.5");
        module(Some(&listing), &config, &mut runner).segments()
    };
    let second = {
        let mut runner = StubRunner::ok("Apple clang version 12.0.5", "12.0.5");
        module(Some(&listing), &config, &mut runner).segments()
    };
    assert!(first.is_some());
    assert_eq!(first, second);
}

#[test]
fn malformed_template_fails_without_probing() {
    let listing = vec![file("any.c")];
    let mut config = Config::default();
    config.format = String::from("via [$symbol($style)");
    let mut runner = StubRunner::ok("clang", "1.0");
    let outcome = module(Some(&listing), &config, &mut runner);
    assert!(matches!(outcome, ModuleOutcome::Failed(FormatError::Parse)));
    assert_eq!(runner.calls, 0);
}

#[test]
fn style_scope_styles_everything_inside_it() {
    let listing = vec![file("any.c")];
    let mut config = Config::default();
    config.format = String::from("[via $symbol]($style)");
    let actual = resolve_with_probes(Some(&listing), &config, None, None).segments();
    let expected = Some(vec![
        seg("via ", Some("bold fg=149")),
        seg("C ", Some("bold fg=149")),
    ]);
    assert_eq!(expected, actual);
}

#[test]
fn empty_template_renders_empty_output() {
    let listing = vec![file("any.c")];
    let mut config = Config::default();
    config.format = String::new();
    let actual = resolve_with_probes(Some(&listing), &config, None, None).segments();
    assert_eq!(actual, Some(Vec::new()));
}

#[test]
fn folder_signal_detects_too() {
    let listing = vec![dir("src"), file("README.md")];
    let mut config = Config::default();
    config.detection.foldernames = vec![String::from("src")];
    config.detection.extensions = Vec::new();
    let actual = resolve_with_probes(Some(&listing), &config, None, None).segments();
    let expected = Some(vec![seg("via ", None), seg("C ", Some("bold fg=149"))]);
    assert_eq!(expected, actual);
}

#[test]
fn style_variable_in_text_position_has_no_text() {
    let listing = vec![file("any.c")];
    let mut config = Config::default();
    config.format = String::from("a$style b");
    let actual = resolve_with_probes(Some(&listing), &config, None, None).segments();
    let expected = Some(vec![seg("a", None), seg(" b", None)]);
    assert_eq!(expected, actual);
}

#[test]
fn unknown_variable_contributes_nothing() {
    let listing = vec![file("any.c")];
    let mut config = Config::default();
    config.format = String::from("x$nope|");
    let actual = resolve_with_probes(Some(&listing), &config, None, None).segments();
    let expected = Some(vec![seg("x", None), seg("|", None)]);
    assert_eq!(expected, actual);
}

#[test]
fn unknown_style_name_renders_unstyled() {
    let listing = vec![file("any.c")];
    let mut config = Config::default();
    config.format = String::from("$symbol($nostyle)");
    let actual = resolve_with_probes(Some(&listing), &config, None, None).segments();
    let expected = Some(vec![seg("C ", None)]);
    assert_eq!(expected, actual);
}

#[test]
fn empty_symbol_is_skipped() {
    let listing = vec![file("any.c")];
    let mut config = Config::default();
    config.symbol = String::new();
    let actual = resolve_with_probes(Some(&listing), &config, None, None).segments();
    let expected = Some(vec![seg("via ", None)]);
    assert_eq!(expected, actual);
}

#[test]
fn failure_reasons_have_readable_descriptions() {
    assert_eq!(FormatError::Parse.describe(), "malformed format template");
    assert_eq!(FormatError::Version.describe(), "unparseable version string");
    assert_eq!(
        FormatError::Probe(String::from("no cc")).describe(),
        "external probe failed: no cc"
    );
}

#[test]
fn unparseable_probe_version_degrades_to_absent() {
    let listing = vec![file("any.c")];
    let mut config = Config::default();
    config.format = String::from("$compiler_version");
    let outcome = resolve_with_probes(
        Some(&listing),
        &config,
        None,
        Some(Ok(String::from("not a version"))),
    );
    assert!(matches!(outcome, ModuleOutcome::Failed(FormatError::Version)));
}

#[test]
fn version_probe_output_is_trimmed_and_truncated() {
    let listing = vec![file("any.c")];
    let mut config = Config::default();
    config.format = String::from("$compiler_version");
    config.version_format = c_segment::version::VersionSpec { components: 2 };
    let actual = resolve_with_probes(
        Some(&listing),
        &config,
        None,
        Some(Ok(String::from(" 3.1.0-suffix \n"))),
    )
    .segments();
    let expected = Some(vec![seg("3.1", None)]);
    assert_eq!(expected, actual);
}
