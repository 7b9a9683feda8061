use concurrently::command::{expand, get_name, parse, Process};
use concurrently::message::Color;

const WHITE: Color = Color { r: 255, g: 255, b: 255 };

#[test]
fn expand_rewrites_shorthands() {
    assert_eq!(expand("npm:dev"), "npm run dev");
    assert_eq!(expand("pnpm:build"), "pnpm build");
    assert_eq!(expand("echo hi"), "echo hi");
    assert_eq!(parse("npm:test"), Ok("npm run test".to_string()));
}

#[test]
fn template_fills_placeholders() {
    let n = get_name("echo hi", None, 3, Some("{index}-{name}".to_string()), 20, 99, "T".to_string());
    assert_eq!(n, "3-echo hi");
    let n = get_name("echo hi", None, 3, Some("[{pid}|{time}|{none}]".to_string()), 20, 4321, "12:00".to_string());
    assert_eq!(n, "[4321|12:00|]");
}

#[test]
fn template_that_is_a_key_becomes_its_value() {
    let n = get_name("echo hi", None, 5, Some("index".to_string()), 10, 1, String::new());
    assert_eq!(n, "5");
    let n = get_name("echo hi", None, 5, Some("command".to_string()), 10, 1, String::new());
    assert_eq!(n, "echo hi");
}

#[test]
fn template_is_cut_to_length() {
    let n = get_name("a long command", None, 0, Some("{command}".to_string()), 6, 1, String::new());
    assert_eq!(n, "a long");
}

#[test]
fn explicit_name_wins_without_template() {
    let n = get_name("npm:dev", Some("web".to_string()), 0, None, 10, 1, String::new());
    assert_eq!(n, "web");
}

#[test]
fn fallback_names() {
    assert_eq!(get_name("pnpm:build", None, 0, None, 10, 1, String::new()), "build");
    assert_eq!(get_name("yarn:lint", None, 0, None, 10, 1, String::new()), "lint");
    assert_eq!(get_name("npm:dev", None, 0, None, 10, 1, String::new()), "dev");
    assert_eq!(get_name("npm:a npm:b", None, 0, None, 10, 1, String::new()), "a ");
    assert_eq!(get_name("echo npm:x", None, 4, None, 10, 1, String::new()), "4");
    assert_eq!(get_name("echo hi", None, 12, None, 10, 1, String::new()), "12");
}

#[test]
fn process_splits_command_into_words() {
    let p = Process::new("npm:dev  --port 3000".to_string(), None, 2, None, 10, WHITE, "%H".to_string(), false, 1);
    assert_eq!(p.cmd, "npm");
    assert_eq!(p.args, vec!["run", "dev", "--port", "3000"]);
    assert_eq!(p.name, "dev  --port 3000");
    assert_eq!(p.index, 2);
    assert!(!p.hidden);
    let e = Process::new("   ".to_string(), Some("blank".to_string()), 0, None, 10, WHITE, "%H".to_string(), true, 1);
    assert_eq!(e.cmd, "");
    assert!(e.args.is_empty());
    assert!(e.hidden);
}

#[test]
fn process_name_template_uses_time() {
    let p = Process::new("echo".to_string(), None, 0, Some("{index}".to_string()), 10, WHITE, "%Y".to_string(), false, 1);
    assert_eq!(p.name, "0");
    let p = Process::new("echo".to_string(), None, 0, Some("{time}".to_string()), 10, WHITE, "%Y".to_string(), false, 1);
    assert_eq!(p.name.len(), 4);
    assert!(p.name.chars().all(|c| c.is_ascii_digit()));
}
