use xml_requirements::config::{Attribute, Config, Rule};
use xml_requirements::error::{write_error, Error};
use xml_requirements::run::{exit_status, lint_files, next_step, Next, Written};

fn layout_rule() -> Config {
    let mut config = Config::new();
    config.insert(
        "LinearLayout".to_string(),
        Rule {
            required: vec![Attribute::parse("android:orientation")],
        },
    );
    config
}

const COMPLIANT: &str = r#"
        <LinearLayout
            xmlns:android="http://schemas.android.com/apk/res/android"
            android:layout_width="match_parent"
            android:layout_height="match_parent"
            android:orientation="vertical" />
        "#;

const VIOLATING: &str = r#"
        <LinearLayout
            xmlns:android="http://schemas.android.com/apk/res/android"
            android:layout_width="match_parent"
            android:layout_height="match_parent" />
        "#;

#[test]
fn one_violating_file_fails_the_run() {
    let files = vec![
        ("good.xml".to_string(), COMPLIANT.to_string()),
        ("bad.xml".to_string(), VIOLATING.to_string()),
    ];

    let report = lint_files(&files, &layout_rule()).unwrap();

    assert!(!report.meets_requirements);
    assert_eq!(1, report.violations.len());
    assert_eq!("bad.xml", report.violations[0].path);
    assert_eq!(
        "bad.xml:2:9 LinearLayout missing android:orientation",
        report.violations[0].to_string()
    );
}

#[test]
fn compliant_files_pass_the_run() {
    let files = vec![
        ("one.xml".to_string(), COMPLIANT.to_string()),
        ("two.xml".to_string(), COMPLIANT.to_string()),
    ];

    let report = lint_files(&files, &layout_rule()).unwrap();

    assert!(report.meets_requirements);
    assert!(report.violations.is_empty());
}

#[test]
fn no_file_passes_the_run() {
    let report = lint_files(&Vec::new(), &layout_rule()).unwrap();

    assert!(report.meets_requirements);
    assert!(report.violations.is_empty());
}

#[test]
fn violations_come_file_by_file() {
    let files = vec![
        ("b.xml".to_string(), VIOLATING.to_string()),
        ("a.xml".to_string(), "<r><LinearLayout/><LinearLayout/></r>".to_string()),
    ];

    let report = lint_files(&files, &layout_rule()).unwrap();

    let lines: Vec<String> = report.violations.iter().map(|v| v.to_string()).collect();
    assert_eq!(
        vec![
            "b.xml:2:9 LinearLayout missing android:orientation".to_string(),
            "a.xml:1:4 LinearLayout missing android:orientation".to_string(),
            "a.xml:1:19 LinearLayout missing android:orientation".to_string(),
        ],
        lines
    );
    assert!(!report.meets_requirements);
}

#[test]
fn the_first_broken_file_ends_the_run() {
    let files = vec![
        ("bad.xml".to_string(), VIOLATING.to_string()),
        ("broken.xml".to_string(), "<a></b>".to_string()),
        ("worse.xml".to_string(), "".to_string()),
    ];

    let outcome = lint_files(&files, &layout_rule());

    assert!(matches!(outcome, Err(Error::ParseXML(path, _)) if path == "broken.xml"));
}

#[test]
fn next_step_after_a_written_file() {
    assert_eq!(Next::Continue(true), next_step(true, 0, Written::Done));
    assert_eq!(Next::Continue(false), next_step(true, 2, Written::Done));
    assert_eq!(Next::Continue(false), next_step(false, 0, Written::Done));
    assert_eq!(Next::Continue(false), next_step(false, 1, Written::Done));
}

#[test]
fn next_step_after_a_broken_pipe() {
    assert_eq!(Next::Finish(false), next_step(true, 1, Written::BrokenPipe));
    assert_eq!(Next::Finish(false), next_step(false, 0, Written::BrokenPipe));
    assert_eq!(Next::Continue(true), next_step(true, 0, Written::BrokenPipe));
}

#[test]
fn next_step_after_a_failed_write() {
    assert_eq!(
        Next::Abort(Error::WriteOutput("disk full".to_string())),
        next_step(true, 1, Written::Failed("disk full".to_string()))
    );
    assert_eq!(
        Next::Abort(Error::WriteOutput("disk full".to_string())),
        next_step(false, 0, Written::Failed("disk full".to_string()))
    );
}

#[test]
fn exit_status_tells_the_three_outcomes_apart() {
    assert_eq!(0, exit_status(&Ok(true)));
    assert_eq!(1, exit_status(&Ok(false)));
    assert_eq!(
        2,
        exit_status(&Err(Error::ReadConfig("c.toml".to_string(), "gone".to_string())))
    );
}

#[test]
fn write_error_gives_message_and_cause() {
    assert_eq!(
        "Error: it broke\n\nCause: a reason",
        write_error("it broke", "a reason")
    );
}

#[test]
fn every_error_has_its_report() {
    let path = "dir/file".to_string();
    let cause = "why".to_string();

    assert_eq!(
        "Error: Failed to read `dir/file`\n\nCause: why",
        Error::ReadConfig(path.clone(), cause.clone()).to_string()
    );
    assert_eq!(
        "Error: Failed to parse config `dir/file`\n\nCause: why",
        Error::ParseConfig(path.clone(), cause.clone()).to_string()
    );
    assert_eq!(
        "Error: Failed to read XML file `dir/file`\n\nCause: why",
        Error::ReadXML(path.clone(), cause.clone()).to_string()
    );
    assert_eq!(
        "Error: Failed to parse XML file `dir/file`\n\nCause: why",
        Error::ParseXML(path.clone(), cause.clone()).to_string()
    );
    assert_eq!(
        "Error: Failed to write output\n\nCause: why",
        Error::WriteOutput(cause.clone()).to_string()
    );
}

const LAYOUT_RULES: &str = r#"
        [LinearLayout]
        required = [ "android:orientation" ]
        "#;

#[test]
fn meets_requirements() -> Result<(), Box<dyn std::error::Error>> {
    let config = xml_requirements::config::from_str(LAYOUT_RULES).map_err(|e| e.to_string())?;
    let files = vec![("layout.xml".to_string(), COMPLIANT.to_string())];

    let report = lint_files(&files, &config).map_err(|e| e.to_string())?;

    assert!(report.violations.is_empty());
    assert_eq!(0, exit_status(&Ok(report.meets_requirements)));

    Ok(())
}

#[test]
fn violates_requirements() -> Result<(), Box<dyn std::error::Error>> {
    let config = xml_requirements::config::from_str(LAYOUT_RULES).map_err(|e| e.to_string())?;
    let files = vec![("layout.xml".to_string(), VIOLATING.to_string())];

    let report = lint_files(&files, &config).map_err(|e| e.to_string())?;

    assert_eq!(1, report.violations.len());
    assert_eq!(1, exit_status(&Ok(report.meets_requirements)));

    Ok(())
}
