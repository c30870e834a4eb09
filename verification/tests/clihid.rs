use antiknob::gui::clihid::{cli_failure, last_line, led_args, upload_args, upload_summary};

#[test]
fn the_last_line_follows_str_lines() {
    for s in ["", "\n", "a", "a\n", "a\nb", "a\nb\n", "a\r\n", "a\r", "a\n\n", "x\r\ny\r\n", "one\ntwo\r"] {
        assert_eq!(last_line(s), s.lines().last().map(|l| l.to_string()), "{s:?}");
    }
}

#[test]
fn a_failure_names_the_last_line_written() {
    assert_eq!(cli_failure("progress\n", "Error: no device\n"), "Error: no device");
    assert_eq!(cli_failure("partial\nlast out\n", ""), "last out");
    assert_eq!(cli_failure("", ""), "unknown CLI error");
}

#[test]
fn an_upload_reports_its_last_line() {
    assert_eq!(upload_summary("[ ==> ] Flashing\n[ OK ] Done\n"), "[ OK ] Done");
    assert_eq!(upload_summary(""), "upload complete");
}

#[test]
fn arguments_are_built_for_the_tool() {
    assert_eq!(upload_args("/tmp/k.yaml", None), vec!["upload", "/tmp/k.yaml"]);
    assert_eq!(upload_args("/tmp/k.yaml", Some(2)), vec!["upload", "/tmp/k.yaml", "--layer", "2"]);
    assert_eq!(led_args(1, "  mode4  red "), vec!["led", "1", "mode4", "red"]);
    assert_eq!(led_args(0, ""), vec!["led", "0"]);
    let spec = "a\tb\u{3000}c";
    let mut expect = vec!["led".to_string(), "12".to_string()];
    expect.extend(spec.split_whitespace().map(|w| w.to_string()));
    assert_eq!(led_args(12, spec), expect);
}
