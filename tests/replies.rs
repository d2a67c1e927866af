use overbot::config::{Bot, Command, InputType, Mode, OutputType};
use overbot::pagination::{dispatch_inline, inline_args, InlineEvent, PageStep, Pagination};
use overbot::pattern::Pattern;
use overbot::reply::{build_reply, ParseMode, Reply, ReplyError};
use overbot::text::{decode_output, parse_offset};

fn text_of(r: Result<Reply, ReplyError>) -> (i64, String, ParseMode) {
    match r {
        Ok(Reply::Message { chat_id, text, parse_mode }) => (chat_id, text, parse_mode),
        _ => panic!("expected a text message"),
    }
}

#[test]
fn mono_output_is_fenced_once() {
    let first = text_of(build_reply(OutputType::TextMono, 7, "abc".to_string()));
    assert_eq!(first, (7, "```abc```".to_string(), ParseMode::Markdown));
    let second = text_of(build_reply(OutputType::TextMono, 7, "abc".to_string()));
    assert_eq!(second.1, "```abc```");
}

#[test]
fn text_kinds_keep_output() {
    assert_eq!(text_of(build_reply(OutputType::Text, 1, "a*b".to_string())), (1, "a*b".to_string(), ParseMode::Text));
    assert_eq!(text_of(build_reply(OutputType::Markdown, 2, "*b*".to_string())), (2, "*b*".to_string(), ParseMode::Markdown));
    assert_eq!(text_of(build_reply(OutputType::Html, 3, "<b>x</b>".to_string())), (3, "<b>x</b>".to_string(), ParseMode::Html));
}

#[test]
fn json_output_is_the_request() {
    match build_reply(OutputType::Json, 1, "{\"chat_id\": 5, \"text\": \"hi\"}".to_string()) {
        Ok(Reply::Request(v)) => {
            assert_eq!(v["chat_id"], 5);
            assert_eq!(v["text"], "hi");
        }
        _ => panic!("expected a request"),
    }
}

#[test]
fn malformed_json_output_is_an_error() {
    assert!(matches!(build_reply(OutputType::Json, 1, "{oops".to_string()), Err(ReplyError::MalformedJson)));
    assert!(matches!(build_reply(OutputType::Json, 1, "".to_string()), Err(ReplyError::MalformedJson)));
}

#[test]
fn offsets_parse_or_fall_back_to_zero() {
    assert_eq!(parse_offset("12"), 12);
    assert_eq!(parse_offset("-4"), -4);
    assert_eq!(parse_offset(""), 0);
    assert_eq!(parse_offset("abc"), 0);
    assert_eq!(parse_offset("99999999999"), 0);
}

#[test]
fn output_must_be_utf8() {
    assert_eq!(decode_output(b"ping".to_vec()), Some("ping".to_string()));
    assert_eq!(decode_output(vec![0xff, 0xfe]), None);
}

fn run_loop(offset: i32, output: impl Fn(i64) -> String) -> (Vec<i64>, overbot::pagination::InlineAnswer) {
    let mut p = Pagination::new(offset);
    let mut offsets = Vec::new();
    while let PageStep::Run { offset } = p.next_step() {
        offsets.push(offset);
        p.record(output(offset));
    }
    (offsets, p.finish())
}

#[test]
fn full_batch_takes_nine_invocations() {
    let (offsets, answer) = run_loop(0, |o| format!("item {}", o));
    assert_eq!(offsets, (0..9).collect::<Vec<i64>>());
    assert_eq!(answer.results.len(), 9);
    assert_eq!(answer.next_offset, 9);
    assert_eq!(answer.next_offset_text, "9");
    assert_eq!(answer.results[4].id, "4");
    assert_eq!(answer.results[4].title, "item 4");
    assert_eq!(answer.results[4].text, "item 4");
}

#[test]
fn empty_outputs_are_dropped() {
    let (offsets, answer) = run_loop(0, |o| if o == 3 || o == 6 { String::new() } else { format!("r{}", o) });
    assert_eq!(offsets.len(), 9);
    assert_eq!(answer.results.len(), 7);
    assert_eq!(answer.next_offset, 7);
    let titles: Vec<String> = answer.results.iter().map(|a| a.title.clone()).collect();
    assert_eq!(titles, vec!["r0", "r1", "r2", "r4", "r5", "r7", "r8"]);
    let ids: Vec<String> = answer.results.iter().map(|a| a.id.clone()).collect();
    assert_eq!(ids, vec!["0", "1", "2", "3", "4", "5", "6"]);
}

#[test]
fn loop_starts_at_query_offset() {
    let (offsets, answer) = run_loop(20, |_| "x".to_string());
    assert_eq!(offsets.first(), Some(&20));
    assert_eq!(offsets.last(), Some(&28));
    assert_eq!(answer.next_offset_text, "29");
}

#[test]
fn all_empty_outputs_keep_the_offset() {
    let (_, answer) = run_loop(5, |_| String::new());
    assert!(answer.results.is_empty());
    assert_eq!(answer.next_offset, 5);
}

#[test]
fn inline_dispatch_expands_each_step() {
    let cmd = Command {
        regex: Pattern::new(r"^find (\w+)$").unwrap(),
        executable: "search".to_string(),
        args: vec!["$1".to_string(), "--from=${offset}".to_string()],
        input: InputType::Text,
        output: OutputType::Text,
        mode: Mode::Inline,
        allowed: None,
    };
    let bot = Bot { token: "t".to_string(), commands: vec![cmd], allowed: None };
    let event = InlineEvent {
        sender_id: 1,
        query_id: "q".to_string(),
        query: "find cats".to_string(),
        offset: "3".to_string(),
        raw: "{}".to_string(),
    };
    let plan = dispatch_inline(&bot, &event).unwrap();
    assert_eq!(plan.command, 0);
    assert_eq!(plan.stdin, "find cats");
    let args = inline_args(&bot, &event, &plan, PageStep::Run { offset: 4 }).unwrap();
    assert_eq!(args, vec!["cats".to_string(), "--from=4".to_string()]);
    assert!(inline_args(&bot, &event, &plan, PageStep::Done).is_none());
    let other = InlineEvent { query: "lost".to_string(), ..event };
    assert!(dispatch_inline(&bot, &other).is_none());
}
