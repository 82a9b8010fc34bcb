use sml_core::config::{ArgError, ArgParse, CompilerBuilder};

fn args(xs: &[&str]) -> Vec<String> {
    std::iter::once("smlc").chain(xs.iter().copied()).map(|s| s.to_string()).collect()
}

#[test]
fn build_defaults() {
    let s = CompilerBuilder::default().build();
    assert!(!s.measure);
    assert_eq!(s.verbosity, 0);
    assert_eq!(s.stop_phase, "");
}

#[test]
fn builder_setters() {
    let s = CompilerBuilder::new().verbosity(2).measure(true).phase("flatten".to_string()).build();
    assert!(s.measure);
    assert_eq!(s.verbosity, 2);
    assert_eq!(s.stop_phase, "flatten");
}

#[test]
fn parse_flags_and_files() {
    let p = ArgParse::parse(&args(&["a.sml", "--vv", "--measure", "--phase", "elab", "b.sml", "-x"])).unwrap();
    assert_eq!(p.files, vec!["a.sml".to_string(), "b.sml".to_string(), "-x".to_string()]);
    assert_eq!(p.builder.verbosity, Some(2));
    assert_eq!(p.builder.measure, Some(true));
    assert_eq!(p.builder.phase, Some("elaborate".to_string()));
}

#[test]
fn parse_later_flag_wins() {
    let p = ArgParse::parse(&args(&["--v", "--silent"])).unwrap();
    assert_eq!(p.builder.verbosity, Some(0));
    let p = ArgParse::parse(&args(&["--phase", "mono", "--phase", "flat"])).unwrap();
    assert_eq!(p.builder.phase, Some("flatten".to_string()));
    let p = ArgParse::parse(&args(&["--phase", "parse", "--v"])).unwrap();
    assert_eq!(p.builder.phase, Some("parse".to_string()));
    assert_eq!(p.builder.verbosity, Some(1));
}

#[test]
fn parse_no_arguments() {
    let p = ArgParse::parse(&args(&[])).unwrap();
    assert!(p.files.is_empty());
    assert_eq!(p.builder.verbosity, None);
    assert_eq!(p.builder.phase, None);
    assert!(ArgParse::parse(&vec![]).unwrap().files.is_empty());
}

#[test]
fn parse_errors() {
    assert_eq!(ArgParse::parse(&args(&["--fast"])).unwrap_err(), ArgError::UnknownFlag("--fast".to_string()));
    assert_eq!(ArgParse::parse(&args(&["a.sml", "--phase"])).unwrap_err(), ArgError::MissingPhaseArgument);
    assert_eq!(
        ArgParse::parse(&args(&["--phase", "codegen"])).unwrap_err(),
        ArgError::UnrecognizedPhase("codegen".to_string())
    );
    assert_eq!(
        ArgParse::parse(&args(&["--phase", "--v"])).unwrap_err(),
        ArgError::UnrecognizedPhase("--v".to_string())
    );
}
