use oxi::arguments::Arguments;
use oxi::command::Command;
use oxi::config::Config;

fn args(texts: &[&str]) -> Vec<String> {
    texts.iter().map(|text| text.to_string()).collect()
}

const USAGE: &str = "oxi v.0.0.1 - (C) 2018 Oxidation Team. All rights reserved.\n\
usage: oxi [-H|--hostname hostname] [-P|--port port] <command> <args>\n";

#[test]
fn hostname_and_port_default_when_omitted() {
    let mut out = String::new();
    let config = Config::new(&args(&["oxi", "test"]), &mut out).unwrap();
    assert_eq!(config.hostname(), "127.0.0.1");
    assert_eq!(config.port(), "4422");
    assert_eq!(config.command(), &Some(Command::Test));
    assert!(!config.help_triggered);
    assert!(!config.wants_help());
    assert_eq!(out, "");
}

#[test]
fn hostname_defaults_alone_and_port_defaults_alone() {
    let mut out = String::new();
    let config = Config::new(&args(&["oxi", "-P", "9000", "health"]), &mut out).unwrap();
    assert_eq!(config.hostname(), "127.0.0.1");
    assert_eq!(config.port(), "9000");
    let config = Config::new(&args(&["oxi", "-H", "example.org", "health"]), &mut out).unwrap();
    assert_eq!(config.hostname(), "example.org");
    assert_eq!(config.port(), "4422");
    assert_eq!(config.command(), &Some(Command::HealthCheck));
}

#[test]
fn empty_values_fall_back_to_the_defaults() {
    let mut out = String::new();
    let config = Config::new(&args(&["oxi", "-H", "", "--port", "", "test"]), &mut out).unwrap();
    assert_eq!(config.hostname(), "127.0.0.1");
    assert_eq!(config.port(), "4422");
}

#[test]
fn given_values_are_kept_as_they_are() {
    let mut out = String::new();
    let config = Config::new(
        &args(&["oxi", "--hostname", " spaced ", "-P", "not a number", "echo", "x"]),
        &mut out,
    )
    .unwrap();
    assert_eq!(config.hostname(), " spaced ");
    assert_eq!(config.port(), "not a number");
    assert_eq!(config.command(), &Some(Command::Echo("x".to_string())));
}

#[test]
fn every_help_flag_sets_the_help_flag() {
    for flag in ["-h", "-?", "--help", "  --help\n"] {
        let mut out = String::new();
        let config = Config::new(&args(&["oxi", flag]), &mut out).unwrap();
        assert!(config.help_triggered);
        assert_eq!(config.command(), &None);
        assert_eq!(out, USAGE);

        let mut out = String::new();
        let config = Config::new(&args(&["oxi", "-H", "h", "test", flag]), &mut out).unwrap();
        assert!(config.help_triggered);
        assert_eq!(config.command(), &Some(Command::Test));
        assert_eq!(out, USAGE);
    }
}

#[test]
fn a_help_flag_taken_as_a_value_sets_nothing() {
    let mut out = String::new();
    let config = Config::new(&args(&["oxi", "-H", "--help", "test"]), &mut out).unwrap();
    assert_eq!(config.hostname(), "--help");
    assert!(!config.help_triggered);
    assert_eq!(out, "");
}

#[test]
fn a_flag_without_its_value_is_a_failure() {
    for list in [
        vec!["oxi", "-H"],
        vec!["oxi", "--hostname"],
        vec!["oxi", "-P"],
        vec!["oxi", "--port"],
        vec!["oxi", "test", "-H"],
        vec!["oxi", "-H", "host", "-P"],
        vec!["oxi", "-P", "1", "add", "1", "2", "--hostname"],
    ] {
        let mut out = String::new();
        let result = Config::new(&args(&list), &mut out);
        assert_eq!(result.err(), Some("argument ended prematurely"));
        assert_eq!(out, "");
    }
}

#[test]
fn a_failure_after_a_help_flag_has_printed_the_usage() {
    let mut out = String::new();
    let result = Config::new(&args(&["oxi", "-h", "--port"]), &mut out);
    assert_eq!(result.err(), Some("argument ended prematurely"));
    assert_eq!(out, USAGE);
}

#[test]
fn no_command_behaves_as_if_help_were_requested() {
    let mut silent = String::new();
    let without = Config::new(&args(&["oxi"]), &mut silent).unwrap();
    let mut asked = String::new();
    let with = Config::new(&args(&["oxi", "--help"]), &mut asked).unwrap();
    assert!(without.help_triggered);
    assert_eq!(without.help_triggered, with.help_triggered);
    assert_eq!(without.hostname(), with.hostname());
    assert_eq!(without.port(), with.port());
    assert_eq!(without.command(), with.command());
    assert_eq!(silent, USAGE);
    assert_eq!(silent, asked);
}

#[test]
fn flags_alone_are_no_command() {
    let mut out = String::new();
    let config = Config::new(&args(&["oxi", "-H", "example.org", "-P", "1"]), &mut out).unwrap();
    assert!(config.help_triggered);
    assert_eq!(config.command(), &None);
    assert_eq!(config.hostname(), "example.org");
    assert_eq!(config.port(), "1");
    assert_eq!(out, USAGE);
}

#[test]
fn words_that_are_no_command_ask_for_help() {
    for list in [
        vec!["oxi", "-H", "127.0.0.1", "-P", "4422", "status"],
        vec!["oxi", "add", "1"],
        vec!["oxi", "--unknown", "test"],
        vec!["oxi", ""],
    ] {
        let mut out = String::new();
        let config = Config::new(&args(&list), &mut out).unwrap();
        assert!(config.help_triggered);
        assert_eq!(config.command(), &None);
        assert_eq!(out, USAGE);
    }
}

#[test]
fn usage_is_printed_once_for_each_help_flag_and_not_again() {
    let mut out = String::new();
    let config = Config::new(&args(&["oxi", "-h", "-?"]), &mut out).unwrap();
    assert!(config.help_triggered);
    assert_eq!(config.command(), &None);
    assert_eq!(out, format!("{0}{0}", USAGE));
}

#[test]
fn usage_names_the_program_as_it_was_called() {
    let mut out = String::new();
    Config::new(&args(&["./target/oxi"]), &mut out).unwrap();
    assert_eq!(
        out,
        "oxi v.0.0.1 - (C) 2018 Oxidation Team. All rights reserved.\n\
usage: ./target/oxi [-H|--hostname hostname] [-P|--port port] <command> <args>\n"
    );
}

#[test]
fn words_are_trimmed_before_they_are_read() {
    let mut out = String::new();
    let config = Config::new(&args(&["oxi", " add ", "1\n", "\t2"]), &mut out).unwrap();
    assert_eq!(config.command(), &Some(Command::Add(1, 2)));
    assert!(!config.help_triggered);
}

#[test]
fn a_configuration_asks_for_help_or_holds_a_command() {
    for list in [
        vec!["oxi"],
        vec!["oxi", "test"],
        vec!["oxi", "-h", "test"],
        vec!["oxi", "nothing"],
        vec!["oxi", "-H", "h", "-P", "p", "echo"],
    ] {
        let mut out = String::new();
        let config = Config::new(&args(&list), &mut out).unwrap();
        assert!(config.help_triggered || config.command().is_some());
    }
}

#[test]
fn resolve_fills_defaults_and_asks_for_help_without_a_command() {
    let mut out = String::new();
    let arguments = Arguments {
        hostname: String::new(),
        port: "81".to_string(),
        help: false,
        words: Vec::new(),
    };
    let config = Config::resolve(arguments, None, "oxi", &mut out);
    assert_eq!(config.hostname(), "127.0.0.1");
    assert_eq!(config.port(), "81");
    assert_eq!(config.command(), &None);
    assert!(config.help_triggered);
    assert_eq!(out, USAGE);
}

#[test]
fn resolve_keeps_a_command_and_prints_nothing() {
    let mut out = String::new();
    let arguments = Arguments {
        hostname: "h".to_string(),
        port: String::new(),
        help: false,
        words: vec!["ignored".to_string()],
    };
    let config = Config::resolve(arguments, Some(Command::Add(2, 3)), "oxi", &mut out);
    assert_eq!(config.hostname(), "h");
    assert_eq!(config.port(), "4422");
    assert_eq!(config.command(), &Some(Command::Add(2, 3)));
    assert!(!config.help_triggered);
    assert_eq!(out, "");
}

#[test]
fn resolve_prints_nothing_more_where_help_was_seen() {
    let mut out = String::from("shown already");
    let arguments = Arguments {
        hostname: String::new(),
        port: String::new(),
        help: true,
        words: Vec::new(),
    };
    let config = Config::resolve(arguments, None, "oxi", &mut out);
    assert!(config.help_triggered);
    assert_eq!(out, "shown already");
}
