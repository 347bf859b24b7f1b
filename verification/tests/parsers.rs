use glimbot::command::{parse_command, unescape, CommanderError};
use glimbot::dice::{parse_roll, Roll, RollComponent};

#[test]
fn simple_parse() {
    let cmd = parse_command("!ping").unwrap();
    println!("{:?}", cmd);
    assert_eq!(cmd.prefix, "!");
    assert_eq!(cmd.command, "ping");
    assert!(cmd.args.is_empty());
}

#[test]
fn parse_with_args() {
    let command_str = r#"~pong with arguments 1 2 3 "\"this is an escaped string\"""#;
    let command = parse_command(command_str).unwrap();
    println!("{:?}", command);
    assert_eq!(command.prefix, "~");
    assert_eq!(command.command, "pong");
    assert_eq!(command.args.len(), 6);
}

#[test]
fn test_unescape() {
    let s = r#""\"this is an escaped string\"""#;
    let unescaped = unescape(s);
    assert_eq!(unescaped, "\"this is an escaped string\"");
}

#[test]
fn test_eval() {
    let expr = Roll::add(RollComponent::constant(10).into(), RollComponent::die(10, 20).into());
    let res = expr.eval();
    println!("{:?}", res);
    assert_eq!(res.rolls().len(), 10);
}

#[test]
fn simple_roll() {
    let inp = "(10000d20) + 20 - 5d4";
    let r = parse_roll(inp).unwrap();
    println!("{:?}", &r);
    assert_eq!(r.num_dice(), 10005);
    println!("{:?}", r.eval().sum())
}

#[test]
fn test_fail() {
    let inp = "100 + 5d";
    let r = parse_roll(inp).unwrap_err();
    println!("{:?}", &r);
    assert!(matches!(r, CommanderError::BadCommandParse(_)));
}

#[test]
fn check_ping_help() {}
