use vstd::prelude::*;
use crate::config::{Bot, InputType, Mode};
use crate::dispatch::{expand_arg, expand_args, find_command, satisfies, stdin_payload};
use crate::pattern::regex_match;
use crate::text::{decimal_of, i64_to_string};

verus! {

/// How many invocations an inline query may take, plus one: the loop stops
/// when its count of invocations reaches `BATCH_SIZE - 1`.
pub const BATCH_SIZE: u32 = 10;

/// The texts of a sequence of strings.
pub open spec fn texts(v: Seq<String>) -> Seq<Seq<char>> {
    v.map_values(|s: String| s@)
}

/// The non-empty outputs, in the order they came.
pub open spec fn kept(outputs: Seq<Seq<char>>) -> Seq<Seq<char>>
    decreases outputs.len(),
{
    if outputs.len() == 0 {
        Seq::empty()
    } else if outputs.last().len() == 0 {
        kept(outputs.drop_last())
    } else {
        kept(outputs.drop_last()).push(outputs.last())
    }
}

/// What the loop asks for next.
#[derive(Debug, Clone, Copy, PartialEq, Eq, Structural)]
pub enum PageStep {
    /// Run the executable once more, with this offset.
    Run { offset: i64 },
    /// Stop and answer.
    Done,
}

/// One result of an inline answer: an identifier, a title and a body.
pub struct Article {
    pub id: String,
    pub title: String,
    pub text: String,
}

/// The aggregated answer to an inline query: the results and the offset
/// from which a following query goes on.
pub struct InlineAnswer {
    pub results: Vec<Article>,
    pub next_offset: i64,
    pub next_offset_text: String,
}

/// The state of the loop that collects the outputs for one inline query.
pub struct Pagination {
    offset: i32,
    collected: Vec<String>,
}

impl Pagination {
    /// The offset the query came with.
    pub closed spec fn base(&self) -> int {
        self.offset as int
    }

    /// The outputs collected so far, empty ones included, in order.
    pub closed spec fn outputs(&self) -> Seq<Seq<char>> {
        texts(self.collected@)
    }

    /// Invocations made so far.
    pub open spec fn iteration(&self) -> int {
        self.outputs().len() as int
    }

    /// What is asked for next in a state that has made `iteration` invocations.
    pub open spec fn step_spec(base: int, iteration: int) -> PageStep {
        if iteration < BATCH_SIZE - 1 {
            PageStep::Run { offset: (base + iteration) as i64 }
        } else {
            PageStep::Done
        }
    }

    /// The initial state: no invocation made, nothing collected.
    pub fn new(offset: i32) -> (r: Pagination)
        ensures
            r.base() == offset,
            r.outputs() == Seq::<Seq<char>>::empty(),
    {
        let r = Pagination { offset, collected: Vec::new() };
        assert(texts(r.collected@) =~= Seq::<Seq<char>>::empty());
        r
    }

    /// Run once more, with the query's offset plus the invocations made so
    /// far, until `BATCH_SIZE - 1` invocations were made; then stop.
    pub fn next_step(&self) -> (r: PageStep)
        ensures
            r == Self::step_spec(self.base(), self.iteration()),
    {
        if self.collected.len() < (BATCH_SIZE - 1) as usize {
            PageStep::Run { offset: self.offset as i64 + self.collected.len() as i64 }
        } else {
            PageStep::Done
        }
    }

    /// Records the output of the invocation that `next_step` asked for.
    pub fn record(&mut self, output: String)
        requires
            old(self).iteration() < BATCH_SIZE - 1,
        ensures
            final(self).base() == old(self).base(),
            final(self).iteration() == old(self).iteration() + 1,
            final(self).outputs() == old(self).outputs().push(output@),
    {
        let ghost before = self.collected@;
        self.collected.push(output);
        assert(texts(self.collected@) =~= texts(before).push(output@));
    }

    /// The answer: one article per non-empty output, in order, identified by
    /// its position and with the output as title and body; the next offset is
    /// the query's offset plus the number of articles.
    pub fn finish(self) -> (r: InlineAnswer)
        requires
            self.iteration() <= BATCH_SIZE - 1,
        ensures
            r.results@.len() == kept(self.outputs()).len(),
            forall|i: int|
                0 <= i < r.results@.len() ==> {
                    &&& (#[trigger] r.results@[i]).id@ == decimal_of(i)
                    &&& r.results@[i].title@ == kept(self.outputs())[i]
                    &&& r.results@[i].text@ == kept(self.outputs())[i]
                },
            r.next_offset == self.base() + kept(self.outputs()).len(),
            r.next_offset_text@ == decimal_of(r.next_offset as int),
    {
        let ghost outs = self.outputs();
        assert(outs.len() == self.collected@.len());
        let mut results: Vec<Article> = Vec::new();
        let mut i: usize = 0;
        while i < self.collected.len()
            invariant
                i <= self.collected@.len(),
                outs == texts(self.collected@),
                results@.len() == kept(outs.subrange(0, i as int)).len(),
                results@.len() <= i,
                self.collected@.len() <= BATCH_SIZE - 1,
                forall|k: int|
                    0 <= k < results@.len() ==> {
                        &&& (#[trigger] results@[k]).id@ == decimal_of(k)
                        &&& results@[k].title@ == kept(outs.subrange(0, i as int))[k]
                        &&& results@[k].text@ == kept(outs.subrange(0, i as int))[k]
                    },
            decreases self.collected@.len() - i,
        {
            let ghost prev = outs.subrange(0, i as int);
            assert(outs.subrange(0, i + 1).drop_last() == prev);
            assert(outs.subrange(0, i + 1).last() == self.collected@[i as int]@);
            let out = &self.collected[i];
            assert(out@ == outs[i as int]);
            if !out.as_str().is_empty() {
                let ghost k = results@.len();
                let id = i64_to_string(results.len() as i64);
                let title = out.clone();
                let text = out.clone();
                results.push(Article { id, title, text });
                assert(kept(outs.subrange(0, i + 1)) == kept(prev).push(out@));
                assert(results@[k as int].title@ == kept(outs.subrange(0, i + 1))[k as int]);
            } else {
                assert(kept(outs.subrange(0, i + 1)) == kept(prev));
            }
            i = i + 1;
        }
        assert(outs.subrange(0, outs.len() as int) == outs);
        let n = results.len() as i64;
        let next_offset = self.offset as i64 + n;
        let next_offset_text = i64_to_string(next_offset);
        InlineAnswer { results, next_offset, next_offset_text }
    }
}

/// An inline query as the dispatcher sees it.
pub struct InlineEvent {
    pub sender_id: i64,
    pub query_id: String,
    pub query: String,
    /// The offset as the transport gives it: text.
    pub offset: String,
    /// The whole event as JSON text.
    pub raw: String,
}

/// The command chosen for an inline query, and what its executable is given.
pub struct InlinePlan {
    pub command: usize,
    pub stdin: String,
}

/// Decides which command answers an inline query: the first command of `bot`
/// in inline mode that admits the sender and whose pattern matches the query.
/// `None` where no command does.
pub fn dispatch_inline(bot: &Bot, event: &InlineEvent) -> (r: Option<InlinePlan>)
    requires
        bot.wf(),
    ensures
        match r {
            Some(p) => {
                &&& p.command < bot.commands@.len()
                &&& satisfies(bot.commands@[p.command as int], Mode::Inline, event.sender_id, None, event.query@)
                &&& forall|j: int| 0 <= j < p.command ==> !satisfies(#[trigger] bot.commands@[j],
                    Mode::Inline, event.sender_id, None, event.query@)
                &&& p.stdin@ == match bot.commands@[p.command as int].input {
                    InputType::Text => event.query@,
                    InputType::Json => event.raw@,
                }
            },
            None => forall|j: int| 0 <= j < bot.commands@.len() ==> !satisfies(
                #[trigger] bot.commands@[j], Mode::Inline, event.sender_id, None, event.query@),
        },
{
    match find_command(&bot.commands, Mode::Inline, event.sender_id, None, event.query.as_str()) {
        None => None,
        Some(i) => {
            let stdin = stdin_payload(bot.commands[i].input, event.query.as_str(), event.raw.as_str());
            Some(InlinePlan { command: i, stdin })
        },
    }
}

/// The arguments for one invocation of an inline query's command, when `step`
/// asks for one: the templates of the planned command expanded with the query
/// and the step's offset. `None` where `step` is `Done` or `plan` is not a
/// plan of `bot` for the query.
pub fn inline_args(bot: &Bot, event: &InlineEvent, plan: &InlinePlan, step: PageStep) -> (r: Option<Vec<String>>)
    ensures
        match step {
            PageStep::Run { offset } => if plan.command < bot.commands@.len() && regex_match(
                bot.commands@[plan.command as int].regex@,
                event.query@,
            ) {
                &&& r.is_some()
                &&& r.unwrap()@.len() == bot.commands@[plan.command as int].args@.len()
                &&& forall|i: int| 0 <= i < r.unwrap()@.len() ==> (#[trigger] r.unwrap()@[i])@
                    == expand_arg(bot.commands@[plan.command as int].regex@, event.query@,
                    bot.commands@[plan.command as int].args@[i]@, Some(offset as int))
            } else {
                r.is_none()
            },
            PageStep::Done => r.is_none(),
        },
{
    match step {
        PageStep::Done => None,
        PageStep::Run { offset } => {
            if plan.command < bot.commands.len() {
                let cmd = &bot.commands[plan.command];
                if cmd.regex.is_match(event.query.as_str()) {
                    Some(expand_args(cmd, event.query.as_str(), Some(offset)))
                } else {
                    None
                }
            } else {
                None
            }
        },
    }
}

/// Where every output is non-empty, a full batch keeps all of them: as many
/// articles as invocations, `BATCH_SIZE - 1`, and the next offset is the
/// query's offset plus that number.
pub proof fn lemma_full_batch(base: int, outputs: Seq<Seq<char>>)
    requires
        outputs.len() == BATCH_SIZE - 1,
        forall|i: int| 0 <= i < outputs.len() ==> (#[trigger] outputs[i]).len() > 0,
    ensures
        kept(outputs) == outputs,
        base + kept(outputs).len() == base + (BATCH_SIZE - 1),
{
    lemma_kept_all(outputs);
}

/// Keeping the non-empty outputs of outputs that are all non-empty keeps them all.
pub proof fn lemma_kept_all(outputs: Seq<Seq<char>>)
    requires
        forall|i: int| 0 <= i < outputs.len() ==> (#[trigger] outputs[i]).len() > 0,
    ensures
        kept(outputs) == outputs,
    decreases outputs.len(),
{
    if outputs.len() > 0 {
        let prefix = outputs.drop_last();
        assert forall|i: int| 0 <= i < prefix.len() implies (#[trigger] prefix[i]).len() > 0 by {
            assert(prefix[i] == outputs[i]);
        }
        lemma_kept_all(prefix);
        assert(outputs.drop_last().push(outputs.last()) == outputs);
    }
}

/// The loop asks for exactly `BATCH_SIZE - 1` invocations: one at each count
/// below that, with offsets counting up from the query's, and stops at it.
pub proof fn lemma_invocation_count(base: int, iteration: int)
    requires
        0 <= iteration,
    ensures
        iteration < BATCH_SIZE - 1 ==> Pagination::step_spec(base, iteration)
            == (PageStep::Run { offset: (base + iteration) as i64 }),
        iteration >= BATCH_SIZE - 1 ==> Pagination::step_spec(base, iteration) == PageStep::Done,
{
}

} // verus!
