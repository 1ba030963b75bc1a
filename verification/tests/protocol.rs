use fw_fanctrl::protocol::{parse_command, Command, PrintFormat};

fn tool_args(input: &str) -> Vec<String> {
    match parse_command(input) {
        Command::Tool(args) => args,
        other => panic!("not a tool command: {:?}", other),
    }
}

fn used_name(input: &str) -> String {
    match parse_command(input) {
        Command::Use(name) => name,
        other => panic!("not a use command: {:?}", other),
    }
}

#[test]
fn use_takes_the_trimmed_name() {
    assert_eq!(used_name("use lazy"), "lazy");
    assert_eq!(used_name("  use   very-agile \n"), "very-agile");
    assert_eq!(used_name("use two words"), "two words");
    assert_eq!(used_name("use use"), "use");
    assert_eq!(used_name("use\u{20}\u{3000}wei\u{df}"), "wei\u{df}");
}

#[test]
fn use_without_a_name_is_unknown() {
    assert!(matches!(parse_command("use"), Command::Unknown));
    assert!(matches!(parse_command("use "), Command::Unknown));
    assert!(matches!(parse_command("use\tlazy"), Command::Unknown));
    assert!(matches!(parse_command("uselazy"), Command::Unknown));
}

#[test]
fn print_forms() {
    assert!(matches!(parse_command("print"), Command::Print(PrintFormat::Json)));
    assert!(matches!(parse_command(" print\n"), Command::Print(PrintFormat::Json)));
    assert!(matches!(parse_command("print json"), Command::Print(PrintFormat::Json)));
    assert!(matches!(parse_command("print   json  "), Command::Print(PrintFormat::Json)));
    assert!(matches!(parse_command("print human"), Command::Print(PrintFormat::Human)));
    assert!(matches!(parse_command("print xml"), Command::Unknown));
    assert!(matches!(parse_command("print JSON"), Command::Unknown));
    assert!(matches!(parse_command("print json human"), Command::Unknown));
    assert!(matches!(parse_command("printjson"), Command::Unknown));
}

#[test]
fn tool_splits_its_arguments_on_whitespace() {
    assert_eq!(tool_args("tool --thermal"), vec!["--thermal"]);
    assert_eq!(tool_args("tool  --fansetduty \t 40 "), vec!["--fansetduty", "40"]);
    assert_eq!(tool_args("tool a\u{a0}b\nc"), vec!["a", "b", "c"]);
    assert!(matches!(parse_command("tool"), Command::Unknown));
    assert!(matches!(parse_command("tool "), Command::Unknown));
}

#[test]
fn bare_words() {
    assert!(matches!(parse_command("reset"), Command::Reset));
    assert!(matches!(parse_command("pause"), Command::Pause));
    assert!(matches!(parse_command("resume"), Command::Resume));
    assert!(matches!(parse_command("reload"), Command::Reload));
    assert!(matches!(parse_command("\t reload \r\n"), Command::Reload));
}

#[test]
fn anything_else_is_unknown() {
    assert!(matches!(parse_command(""), Command::Unknown));
    assert!(matches!(parse_command("   "), Command::Unknown));
    assert!(matches!(parse_command("Reset"), Command::Unknown));
    assert!(matches!(parse_command("reset now"), Command::Unknown));
    assert!(matches!(parse_command("pause!"), Command::Unknown));
    assert!(matches!(parse_command("help"), Command::Unknown));
    assert!(matches!(parse_command("resum"), Command::Unknown));
}
