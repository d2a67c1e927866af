use overbot::config::{resolve_all, sort_ids, Bot, Command, InputType, Mode, OutputType};
use overbot::dispatch::{dispatch_message, expand_args, find_command, stdin_payload, MessageEvent};
use overbot::pattern::{Pattern, PatternError};

fn command(pattern: &str, mode: Mode, allowed: Option<Vec<i64>>) -> Command {
    Command {
        regex: Pattern::new(pattern).unwrap(),
        executable: "run".to_string(),
        args: vec![],
        input: InputType::Text,
        output: OutputType::Text,
        mode,
        allowed,
    }
}

#[test]
fn mode_defaults_to_message() {
    assert_eq!(Mode::message(), Mode::Message);
}

#[test]
fn no_list_admits_everyone() {
    let c = command("x", Mode::Message, None);
    assert!(c.allowed(0));
    assert!(c.allowed(-42));
    assert!(c.allowed(i64::MAX));
}

#[test]
fn sorted_list_admits_members_only() {
    let c = command("x", Mode::Message, Some(vec![-5, 3, 8, 100]));
    assert!(c.allowed(-5));
    assert!(c.allowed(8));
    assert!(c.allowed(100));
    assert!(!c.allowed(4));
    assert!(!c.allowed(101));
    assert!(!c.allowed(-6));
}

#[test]
fn empty_list_admits_nobody() {
    let c = command("x", Mode::Message, Some(vec![]));
    assert!(!c.allowed(1));
}

#[test]
fn sorting_keeps_duplicates() {
    assert_eq!(sort_ids(&vec![5, -1, 3, 5, 0]), vec![-1, 0, 3, 5, 5]);
    assert_eq!(sort_ids(&vec![]), Vec::<i64>::new());
}

#[test]
fn invalid_pattern_is_refused() {
    assert!(matches!(Pattern::new("(unclosed"), Err(PatternError::Invalid)));
    assert_eq!(Pattern::new("a+b").unwrap().as_str(), "a+b");
}

#[test]
fn inheritance_most_specific_wins() {
    let bot = Bot {
        token: "t".to_string(),
        commands: vec![
            command("a", Mode::Message, Some(vec![9, 1])),
            command("b", Mode::Message, None),
        ],
        allowed: Some(vec![7, 2]),
    };
    let other = Bot {
        token: "u".to_string(),
        commands: vec![command("c", Mode::Message, None)],
        allowed: None,
    };
    let global = Some(vec![30, 10, 20]);
    let bots = resolve_all(&global, vec![bot, other]);
    assert_eq!(bots[0].commands[0].allowed, Some(vec![1, 9]));
    assert_eq!(bots[0].commands[1].allowed, Some(vec![2, 7]));
    assert_eq!(bots[1].commands[0].allowed, Some(vec![10, 20, 30]));
    assert_eq!(bots[0].token, "t");
    assert_eq!(bots[0].allowed, Some(vec![7, 2]));
}

#[test]
fn inheritance_without_lists_stays_unrestricted() {
    let mut bot = Bot {
        token: "t".to_string(),
        commands: vec![command("a", Mode::Message, None)],
        allowed: None,
    };
    bot.resolve(&None);
    assert_eq!(bot.commands[0].allowed, None);
    assert!(bot.commands[0].allowed(12345));
}

#[test]
fn inheritance_is_idempotent() {
    let mut bot = Bot {
        token: "t".to_string(),
        commands: vec![
            command("a", Mode::Message, Some(vec![3, 1, 2])),
            command("b", Mode::Message, None),
        ],
        allowed: Some(vec![6, 4, 5]),
    };
    bot.apply_inheritance();
    let first: Vec<Option<Vec<i64>>> = bot.commands.iter().map(|c| c.allowed.clone()).collect();
    bot.apply_inheritance();
    let second: Vec<Option<Vec<i64>>> = bot.commands.iter().map(|c| c.allowed.clone()).collect();
    assert_eq!(first, second);
    assert_eq!(first, vec![Some(vec![1, 2, 3]), Some(vec![4, 5, 6])]);
}

#[test]
fn relative_paths_are_joined() {
    let mut bot = Bot {
        token: "t".to_string(),
        commands: vec![command("a", Mode::Message, None), command("b", Mode::Message, None)],
        allowed: None,
    };
    bot.commands[1].executable = "/bin/cat".to_string();
    bot.fix_relative_paths("/etc/bots");
    assert_eq!(bot.commands[0].executable, "/etc/bots/run");
    assert_eq!(bot.commands[1].executable, "/bin/cat");
}

#[test]
fn earliest_declared_command_wins() {
    let commands = vec![command("x", Mode::Message, None), command("x.*", Mode::Message, None)];
    assert_eq!(find_command(&commands, Mode::Message, 1, Some(2), "xyz"), Some(0));
}

#[test]
fn matcher_skips_wrong_mode_and_acl() {
    let commands = vec![
        command("x", Mode::Inline, None),
        command("x", Mode::Message, Some(vec![5])),
        command("x", Mode::Message, Some(vec![1, 2])),
        command("x", Mode::Message, None),
    ];
    assert_eq!(find_command(&commands, Mode::Message, 1, Some(2), "x"), Some(2));
    assert_eq!(find_command(&commands, Mode::Message, 1, Some(3), "x"), Some(3));
    assert_eq!(find_command(&commands, Mode::Inline, 9, None, "x"), Some(0));
    assert_eq!(find_command(&commands, Mode::Message, 1, Some(2), "y"), None);
}

#[test]
fn captures_and_offset_are_expanded() {
    let mut c = command(r"^(\w+)$", Mode::Inline, None);
    c.args = vec!["${1}".to_string(), "id:${offset}".to_string()];
    assert_eq!(expand_args(&c, "hello", Some(5)), vec!["hello".to_string(), "id:5".to_string()]);
}

#[test]
fn offset_token_survives_without_offset_name_clash() {
    let mut c = command(r"^(?P<word>\w+) (\d+)$", Mode::Inline, None);
    c.args = vec!["${word}-${2}".to_string(), "${offset}".to_string(), "a${offset}b".to_string()];
    assert_eq!(
        expand_args(&c, "abc 42", Some(-3)),
        vec!["abc-42".to_string(), "-3".to_string(), "a-3b".to_string()]
    );
}

#[test]
fn undefined_group_expands_to_empty() {
    let mut c = command(r"^(\w+)$", Mode::Message, None);
    c.args = vec!["[${7}]".to_string(), "$1".to_string()];
    assert_eq!(expand_args(&c, "hi", None), vec!["[]".to_string(), "hi".to_string()]);
}

#[test]
fn stdin_is_text_or_raw_event() {
    assert_eq!(stdin_payload(InputType::Text, "ping", "{}"), "ping");
    assert_eq!(stdin_payload(InputType::Json, "ping", "{\"a\":1}"), "{\"a\":1}");
}

#[test]
fn message_dispatch_builds_invocation() {
    let mut c = command(r"^/echo (.*)$", Mode::Message, Some(vec![10, 20]));
    c.args = vec!["--say=$1".to_string()];
    c.input = InputType::Json;
    let bot = Bot { token: "t".to_string(), commands: vec![command("^/x$", Mode::Message, None), c], allowed: None };
    let event = MessageEvent { sender_id: 10, chat_id: 20, text: "/echo hi".to_string(), raw: "{}".to_string() };
    let inv = dispatch_message(&bot, &event).unwrap();
    assert_eq!(inv.command, 1);
    assert_eq!(inv.args, vec!["--say=hi".to_string()]);
    assert_eq!(inv.stdin, "{}");
    let stranger = MessageEvent { sender_id: 10, chat_id: 30, text: "/echo hi".to_string(), raw: "{}".to_string() };
    assert!(dispatch_message(&bot, &stranger).is_none());
}
