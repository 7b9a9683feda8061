use concurrently::command_parser::{
    default_names_separator, default_prefix_length, default_restart_after, default_restart_tries,
    parse_hidden, parse_names, Command, CommandParser, Commands, Process,
};

fn commands(processes: &[&str], names: Option<&str>) -> Commands {
    Commands {
        names: names.map(|n| n.to_string()),
        names_seperator: default_names_separator(),
        kill_others: false,
        kill_others_on_fail: false,
        hide: None,
        restart_tries: default_restart_tries(),
        restart_after: default_restart_after(),
        prefix: None,
        prefix_length: default_prefix_length(),
        max_processes: None,
        raw: false,
        no_color: false,
        group: false,
        processes: processes.iter().map(|p| p.to_string()).collect(),
        timestamp_format: "%Y-%m-%d %H:%M:%S".to_string(),
    }
}

#[test]
fn defaults() {
    assert_eq!(default_restart_tries(), 0);
    assert_eq!(default_restart_after(), 0);
    assert_eq!(default_prefix_length(), 10);
    assert_eq!(default_names_separator(), ",");
}

#[test]
fn names_are_split_on_the_separator() {
    assert_eq!(parse_names(&Some("a,b".to_string()), &",".to_string()), vec!["a", "b"]);
    assert_eq!(parse_names(&Some("a|b|c".to_string()), &"|".to_string()), vec!["a", "b", "c"]);
    assert!(parse_names(&None, &",".to_string()).is_empty());
    assert_eq!(parse_hidden(&Some("x,y".to_string())), vec!["x", "y"]);
    assert!(parse_hidden(&None).is_empty());
}

#[test]
fn command_expansions() {
    let c = Command::new("n".to_string(), "npm:dev".to_string()).expand_npm();
    assert_eq!(c.cmd, "npm run dev");
    let c = Command::new("n".to_string(), "pnpm:dev".to_string()).expand_pnpm();
    assert_eq!(c.cmd, "pnpm dev");
    let c = Command::new("n".to_string(), "yarn:dev".to_string()).expand_yarn();
    assert_eq!(c.cmd, "yarn dev");
    assert_eq!(c.name, "n");
}

#[test]
fn command_and_arguments() {
    let c = Command::new("n".to_string(), "cargo  build --release".to_string());
    assert_eq!(c.get_command(), "cargo");
    assert_eq!(c.get_args(), vec!["", "build", "--release"]);
    let c = Command::new("n".to_string(), String::new());
    assert_eq!(c.get_command(), "");
    assert!(c.get_args().is_empty());
}

#[test]
fn process_expands_in_order() {
    assert_eq!(Process::new("a".to_string(), "yarn:x".to_string()).cmd.cmd, "yarn x");
    assert_eq!(Process::new("a".to_string(), "pnpm:x".to_string()).cmd.cmd, "pnpm run x");
}

#[test]
fn parser_names_processes() {
    let parser = CommandParser::new(commands(&["echo a", "npm:dev", "ls"], Some("first,second")));
    assert_eq!(parser.len(), 3);
    let ps = parser.parse();
    assert_eq!(ps.len(), 3);
    assert_eq!(ps[0].cmd.name, "first");
    assert_eq!(ps[1].cmd.name, "second");
    assert_eq!(ps[1].cmd.cmd, "npm run dev");
    assert_eq!(ps[2].cmd.name, "ls");
    assert!(CommandParser::new(commands(&[], None)).parse().is_empty());
}
