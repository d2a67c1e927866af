use vstd::prelude::*;
use crate::config::{admits, list_view, Bot, Command, InputType, Mode};
use crate::pattern::{regex_expand, regex_match};
use crate::text::{decimal_of, i64_to_string, replace_all, replace_str};

verus! {

/// Whether `c` answers an event of kind `mode` from `sender`, in `chat` where the
/// event has one, with text `text`. The one allow-list serves for sender and chat.
pub open spec fn satisfies(c: Command, mode: Mode, sender: i64, chat: Option<i64>, text: Seq<char>) -> bool {
    &&& c.mode == mode
    &&& admits(list_view(c.allowed), sender)
    &&& (chat.is_some() ==> admits(list_view(c.allowed), chat.unwrap()))
    &&& regex_match(c.regex@, text)
}

/// Every allow-list of the commands is sorted.
pub open spec fn all_wf(commands: Seq<Command>) -> bool {
    forall|i: int| 0 <= i < commands.len() ==> (#[trigger] commands[i]).wf()
}

/// The first command, in declared order, that answers the event; `None` where none does.
pub fn find_command(
    commands: &Vec<Command>,
    mode: Mode,
    sender: i64,
    chat: Option<i64>,
    text: &str,
) -> (r: Option<usize>)
    requires
        all_wf(commands@),
    ensures
        match r {
            Some(i) => {
                &&& i < commands@.len()
                &&& satisfies(commands@[i as int], mode, sender, chat, text@)
                &&& forall|j: int| 0 <= j < i ==> !satisfies(#[trigger] commands@[j], mode, sender, chat, text@)
            },
            None => forall|j: int|
                0 <= j < commands@.len() ==> !satisfies(#[trigger] commands@[j], mode, sender, chat, text@),
        },
{
    let mut i: usize = 0;
    while i < commands.len()
        invariant
            i <= commands@.len(),
            all_wf(commands@),
            forall|j: int| 0 <= j < i ==> !satisfies(#[trigger] commands@[j], mode, sender, chat, text@),
        decreases commands@.len() - i,
    {
        let c = &commands[i];
        assert(c.wf());
        let chat_ok = match chat {
            Some(id) => c.allowed(id),
            None => true,
        };
        if c.mode == mode && c.allowed(sender) && chat_ok && c.regex.is_match(text) {
            return Some(i);
        }
        i = i + 1;
    }
    None
}

/// The placeholder in an argument template that stands for the query offset.
pub open spec fn offset_token() -> Seq<char> {
    seq!['$', '{', 'o', 'f', 'f', 's', 'e', 't', '}']
}

/// The placeholder with its sigil doubled, which capture expansion turns back
/// into the placeholder.
pub open spec fn disguised_token() -> Seq<char> {
    seq!['$'] + offset_token()
}

/// One argument from its template: the capture references expanded, and, where
/// an offset is given, the offset placeholder disguised before the expansion,
/// put back after it, and then replaced by the offset in decimal.
pub open spec fn expand_arg(pattern: Seq<char>, text: Seq<char>, template: Seq<char>, offset: Option<int>) -> Seq<char> {
    match offset {
        None => regex_expand(pattern, text, template),
        Some(o) => replace_all(
            replace_all(
                regex_expand(pattern, text, replace_all(template, offset_token(), disguised_token())),
                disguised_token(),
                offset_token(),
            ),
            offset_token(),
            decimal_of(o),
        ),
    }
}

/// One argument from its template; see `expand_arg`.
fn expand_one(cmd: &Command, text: &str, template: &str, offset: Option<i64>) -> (r: String)
    requires
        regex_match(cmd.regex@, text@),
    ensures
        r@ == expand_arg(cmd.regex@, text@, template@, match offset {
            Some(o) => Some(o as int),
            None => None,
        }),
{
    proof {
        reveal_strlit("${offset}");
        reveal_strlit("$${offset}");
    }
    assert("${offset}"@ == offset_token());
    assert("$${offset}"@ == disguised_token());
    match offset {
        None => cmd.regex.expand(text, template),
        Some(o) => {
            let disguised = replace_str(template, "${offset}", "$${offset}");
            let expanded = cmd.regex.expand(text, disguised.as_str());
            let revealed = replace_str(expanded.as_str(), "$${offset}", "${offset}");
            let number = i64_to_string(o);
            replace_str(revealed.as_str(), "${offset}", number.as_str())
        },
    }
}

/// The arguments of `cmd` for an event whose text `text` its pattern matches,
/// each from its template by `expand_arg`.
pub fn expand_args(cmd: &Command, text: &str, offset: Option<i64>) -> (r: Vec<String>)
    requires
        regex_match(cmd.regex@, text@),
    ensures
        r@.len() == cmd.args@.len(),
        forall|i: int|
            0 <= i < r@.len() ==> (#[trigger] r@[i])@ == expand_arg(
                cmd.regex@,
                text@,
                cmd.args@[i]@,
                match offset {
                    Some(o) => Some(o as int),
                    None => None,
                },
            ),
{
    let mut r: Vec<String> = Vec::new();
    let mut i: usize = 0;
    while i < cmd.args.len()
        invariant
            i <= cmd.args@.len(),
            regex_match(cmd.regex@, text@),
            r@.len() == i,
            forall|k: int|
                0 <= k < i ==> (#[trigger] r@[k])@ == expand_arg(
                    cmd.regex@,
                    text@,
                    cmd.args@[k]@,
                    match offset {
                        Some(o) => Some(o as int),
                        None => None,
                    },
                ),
        decreases cmd.args@.len() - i,
    {
        let a = expand_one(cmd, text, cmd.args[i].as_str(), offset);
        r.push(a);
        i = i + 1;
    }
    r
}

/// What an executable is given on its standard input: the event's text, or the
/// whole event as JSON.
pub fn stdin_payload(input: InputType, text: &str, raw_json: &str) -> (r: String)
    ensures
        r@ == match input {
            InputType::Text => text@,
            InputType::Json => raw_json@,
        },
{
    match input {
        InputType::Text => text.to_owned(),
        InputType::Json => raw_json.to_owned(),
    }
}

/// A chat message as the dispatcher sees it.
pub struct MessageEvent {
    pub sender_id: i64,
    pub chat_id: i64,
    pub text: String,
    /// The whole event as JSON text.
    pub raw: String,
}

/// The executable to run for an event: which command, with which arguments,
/// and what to write on its standard input.
pub struct Invocation {
    pub command: usize,
    pub args: Vec<String>,
    pub stdin: String,
}

/// Decides what to run for a chat message: the first command of `bot` in
/// message mode that admits sender and chat and whose pattern matches the text,
/// with its arguments expanded from the text. `None` where no command does.
pub fn dispatch_message(bot: &Bot, event: &MessageEvent) -> (r: Option<Invocation>)
    requires
        bot.wf(),
    ensures
        match r {
            Some(inv) => {
                &&& inv.command < bot.commands@.len()
                &&& satisfies(bot.commands@[inv.command as int], Mode::Message, event.sender_id,
                    Some(event.chat_id), event.text@)
                &&& forall|j: int| 0 <= j < inv.command ==> !satisfies(#[trigger] bot.commands@[j],
                    Mode::Message, event.sender_id, Some(event.chat_id), event.text@)
                &&& inv.args@.len() == bot.commands@[inv.command as int].args@.len()
                &&& forall|i: int| 0 <= i < inv.args@.len() ==> (#[trigger] inv.args@[i])@
                    == expand_arg(bot.commands@[inv.command as int].regex@, event.text@,
                    bot.commands@[inv.command as int].args@[i]@, None)
                &&& inv.stdin@ == match bot.commands@[inv.command as int].input {
                    InputType::Text => event.text@,
                    InputType::Json => event.raw@,
                }
            },
            None => forall|j: int| 0 <= j < bot.commands@.len() ==> !satisfies(
                #[trigger] bot.commands@[j], Mode::Message, event.sender_id, Some(event.chat_id), event.text@),
        },
{
    match find_command(&bot.commands, Mode::Message, event.sender_id, Some(event.chat_id), event.text.as_str()) {
        None => None,
        Some(i) => {
            let cmd = &bot.commands[i];
            let args = expand_args(cmd, event.text.as_str(), None);
            let stdin = stdin_payload(cmd.input, event.text.as_str(), event.raw.as_str());
            Some(Invocation { command: i, args, stdin })
        },
    }
}

} // verus!
