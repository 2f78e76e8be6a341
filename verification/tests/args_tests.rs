use vswhere::args::{ArgCollector, PopulateArgs, VersionRange};
use vswhere::selection::{full_argv, Legacy, Modern, PathOverride};
use vswhere::Version;

fn v(major: u16, minor: u16, revision: u16, build: u16) -> Version {
    Version { major, minor, revision, build }
}

fn tokens_of<S: PopulateArgs>(s: &S) -> Vec<String> {
    let mut cmd = ArgCollector::new();
    s.populate_args(&mut cmd);
    cmd.into_tokens()
}

fn strings(items: &[&str]) -> Vec<String> {
    items.iter().map(|s| String::from(*s)).collect()
}

#[test]
fn range_both_bounds_present() {
    let r = VersionRange { lower: Some(v(15, 0, 0, 0)), upper: Some(v(16, 7, 0, 0)) };
    assert_eq!(r.token(), Some(String::from("15.0.0.0,16.7.0.0")));
    assert_eq!(tokens_of(&r), strings(&["-version", "15.0.0.0,16.7.0.0"]));
}

#[test]
fn range_lower_bound_only() {
    let r = VersionRange { lower: Some(v(15, 0, 0, 0)), upper: None };
    assert_eq!(r.token(), Some(String::from("15.0.0.0,")));
    assert_eq!(tokens_of(&r), strings(&["-version", "15.0.0.0,"]));
}

#[test]
fn range_upper_bound_only() {
    let r = VersionRange { lower: None, upper: Some(v(16, 7, 0, 0)) };
    assert_eq!(r.token(), Some(String::from(",16.7.0.0")));
    assert_eq!(tokens_of(&r), strings(&["-version", ",16.7.0.0"]));
}

#[test]
fn range_no_bounds_encodes_nothing() {
    let r = VersionRange { lower: None, upper: None };
    assert_eq!(r.token(), None);
    assert_eq!(tokens_of(&r), Vec::<String>::new());
}

#[test]
fn modern_default_encodes_nothing() {
    assert_eq!(tokens_of(&Modern::new()), Vec::<String>::new());
}

#[test]
fn modern_empty_product_allowlist_has_no_marker() {
    let m = Modern::new().all(true).prerelease(true);
    let toks = tokens_of(&m);
    assert!(!toks.contains(&String::from("-products")));
    assert_eq!(toks, strings(&["-all", "-prerelease"]));
}

#[test]
fn modern_wildcard_product_allowlist() {
    let m = Modern::new().products(strings(&["*"]));
    assert_eq!(tokens_of(&m), strings(&["-products", "*"]));
}

#[test]
fn modern_full_token_order() {
    let m = Modern::new()
        .all(true)
        .prerelease(true)
        .requires_any(true)
        .products(strings(&["Community", "Professional"]))
        .required(strings(&["Component.A"]))
        .version(Some(v(15, 0, 0, 0)), None);
    assert_eq!(
        tokens_of(&m),
        strings(&[
            "-all",
            "-prerelease",
            "-requiresAny",
            "-products",
            "Community",
            "Professional",
            "-requires",
            "Component.A",
            "-version",
            "15.0.0.0,",
        ])
    );
}

#[test]
fn legacy_always_leads_with_legacy_token() {
    assert_eq!(tokens_of(&Legacy::new()), strings(&["-legacy"]));
    let l = Legacy::new().all(true).version(None, Some(v(14, 0, 0, 0)));
    assert_eq!(
        tokens_of(&l),
        strings(&["-legacy", "-all", "-version", ",14.0.0.0"])
    );
}

#[test]
fn path_override_encodes_exactly_marker_and_path() {
    let p = PathOverride::new(String::from("C:\\Tools\\VS"));
    assert_eq!(tokens_of(&p), strings(&["-path", "C:\\Tools\\VS"]));
}

#[test]
fn full_argv_appends_fixed_output_tokens() {
    let m = Modern::new().prerelease(true);
    let argv = full_argv(&m).into_tokens();
    assert_eq!(argv, strings(&["-prerelease", "-utf8", "-format", "json"]));
}

#[test]
fn collector_keeps_insertion_order() {
    let mut cmd = ArgCollector::new();
    cmd.arg("one");
    cmd.arg_string(String::from("two"));
    cmd.args(&strings(&["three", "four"]));
    assert_eq!(cmd.len(), 4);
    assert_eq!(cmd.token_at(0), "one");
    assert_eq!(cmd.into_tokens(), strings(&["one", "two", "three", "four"]));
}
