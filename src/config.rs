use vstd::prelude::*;
use vstd::relations::{sorted_by, total_ordering};
use vstd::seq_lib::{lemma_multiset_commutative, lemma_sorted_unique};
use crate::pattern::Pattern;

verus! {

broadcast use vstd::seq_lib::group_to_multiset_ensures;

/// What an executable is given on its standard input.
#[derive(Clone, Copy, Debug, PartialEq, Eq, Structural)]
pub enum InputType {
    /// The text of the event.
    Text,
    /// The whole event as JSON.
    Json,
}

/// How the output of an executable is turned into a reply.
#[derive(Clone, Copy, Debug, PartialEq, Eq, Structural)]
pub enum OutputType {
    Text,
    TextMono,
    Markdown,
    Html,
    Json,
}

/// Which kind of event a command answers.
#[derive(Clone, Copy, Debug, PartialEq, Eq, Structural)]
pub enum Mode {
    Message,
    Inline,
}

impl Mode {
    /// The mode of a command that names none.
    pub fn message() -> (r: Mode)
        ensures
            r == Mode::Message,
    {
        Mode::Message
    }
}

/// Ascending order of identifiers, as a relation.
pub open spec fn id_leq(a: i64, b: i64) -> bool {
    a <= b
}

/// The identifiers are in ascending order.
pub open spec fn sorted_ids(s: Seq<i64>) -> bool {
    forall|i: int, j: int| 0 <= i < j < s.len() ==> s[i] <= s[j]
}

/// An optional allow-list as a sequence.
pub open spec fn list_view(l: Option<Vec<i64>>) -> Option<Seq<i64>> {
    match l {
        Some(v) => Some(v@),
        None => None,
    }
}

/// Whether an allow-list admits `id`: an absent list admits everyone.
pub open spec fn admits(list: Option<Seq<i64>>, id: i64) -> bool {
    match list {
        Some(l) => l.contains(id),
        None => true,
    }
}

/// The list that applies to a command: its own, else its bot's, else the global one.
pub open spec fn inherited(
    own: Option<Seq<i64>>,
    bot: Option<Seq<i64>>,
    global: Option<Seq<i64>>,
) -> Option<Seq<i64>> {
    if own.is_some() {
        own
    } else if bot.is_some() {
        bot
    } else {
        global
    }
}

/// `new` is `effective` stored for lookup: absent where it is absent, else the
/// same identifiers, as often each, in ascending order.
pub open spec fn stored_as(new: Option<Seq<i64>>, effective: Option<Seq<i64>>) -> bool {
    match effective {
        None => new.is_none(),
        Some(e) => new.is_some() && sorted_ids(new.unwrap()) && new.unwrap().to_multiset()
            == e.to_multiset(),
    }
}

/// A command: the pattern that selects it, the executable it runs with its
/// argument templates, how input and output are encoded, the kind of event it
/// answers, and who may use it.
pub struct Command {
    pub regex: Pattern,
    pub executable: String,
    pub args: Vec<String>,
    pub input: InputType,
    pub output: OutputType,
    pub mode: Mode,
    pub allowed: Option<Vec<i64>>,
}

/// A bot: its credential, its commands in declared order, and who may use it.
pub struct Bot {
    pub token: String,
    pub commands: Vec<Command>,
    pub allowed: Option<Vec<i64>>,
}

impl Command {
    /// The allow-list, where there is one, is in ascending order.
    pub open spec fn wf(&self) -> bool {
        match self.allowed {
            Some(l) => sorted_ids(l@),
            None => true,
        }
    }

    /// Whether the command may be used by (or in) `id`.
    pub fn allowed(&self, id: i64) -> (r: bool)
        requires
            self.wf(),
        ensures
            r == admits(list_view(self.allowed), id),
    {
        match &self.allowed {
            Some(l) => contains_sorted(l, id),
            None => true,
        }
    }
}

/// Binary search in an ascending list.
pub fn contains_sorted(v: &Vec<i64>, id: i64) -> (r: bool)
    requires
        sorted_ids(v@),
    ensures
        r == v@.contains(id),
{
    let mut lo: usize = 0;
    let mut hi: usize = v.len();
    while lo < hi
        invariant
            0 <= lo <= hi <= v.len(),
            sorted_ids(v@),
            forall|i: int| 0 <= i < lo ==> v@[i] < id,
            forall|i: int| hi <= i < v.len() ==> v@[i] > id,
        decreases hi - lo,
    {
        let mid: usize = lo + (hi - lo) / 2;
        if v[mid] == id {
            assert(v@[mid as int] == id);
            return true;
        } else if v[mid] < id {
            lo = mid + 1;
        } else {
            hi = mid;
        }
    }
    assert(!v@.contains(id)) by {
        if v@.contains(id) {
            let k = choose|k: int| 0 <= k < v@.len() && v@[k] == id;
            assert(k < lo || k >= hi);
        }
    }
    false
}

/// The identifiers in ascending order, each as often as before.
pub fn sort_ids(v: &Vec<i64>) -> (r: Vec<i64>)
    ensures
        sorted_ids(r@),
        r@.to_multiset() == v@.to_multiset(),
        r@.len() == v@.len(),
{
    let mut r: Vec<i64> = Vec::new();
    let mut i: usize = 0;
    while i < v.len()
        invariant
            i <= v.len(),
            sorted_ids(r@),
            r@.to_multiset() == v@.subrange(0, i as int).to_multiset(),
        decreases v.len() - i,
    {
        let x = v[i];
        let mut p: usize = 0;
        while p < r.len() && r[p] <= x
            invariant
                p <= r.len(),
                forall|k: int| 0 <= k < p ==> r@[k] <= x,
            decreases r.len() - p,
        {
            p = p + 1;
        }
        let ghost before = r@;
        r.insert(p, x);
        proof {
            before.insert_ensures(p as int, x);
            assert(p < before.len() ==> before[p as int] > x);
            assert forall|a: int, b: int| 0 <= a < b < r@.len() implies r@[a] <= r@[b] by {
                if b < p {
                } else if a > p {
                    assert(r@[a] == before[a - 1] && r@[b] == before[b - 1]);
                } else if a == p {
                    assert(r@[b] == before[b - 1]);
                    assert(before[p as int] <= before[b - 1]);
                } else if b == p {
                } else {
                    assert(r@[b] == before[b - 1]);
                    assert(before[p as int] <= before[b - 1]);
                }
            }
            assert(before == before.subrange(0, p as int) + before.subrange(p as int, before.len() as int));
            lemma_multiset_commutative(before.subrange(0, p as int), before.subrange(p as int, before.len() as int));
            lemma_multiset_commutative(before.subrange(0, p as int).push(x), before.subrange(p as int, before.len() as int));
            assert(v@.subrange(0, i + 1) == v@.subrange(0, i as int).push(x));
        }
        i = i + 1;
    }
    assert(v@.subrange(0, v@.len() as int) == v@);
    proof {
        r@.to_multiset_ensures();
        v@.to_multiset_ensures();
    }
    r
}

/// The list that applies, stored sorted: the command's own, else the bot's,
/// else the global one.
pub fn resolve_list(
    own: Option<Vec<i64>>,
    bot: &Option<Vec<i64>>,
    global: &Option<Vec<i64>>,
) -> (r: Option<Vec<i64>>)
    ensures
        stored_as(list_view(r), inherited(list_view(own), list_view(*bot), list_view(*global))),
{
    match own {
        Some(l) => Some(sort_ids(&l)),
        None => match bot {
            Some(b) => Some(sort_ids(b)),
            None => match global {
                Some(g) => Some(sort_ids(g)),
                None => None,
            },
        },
    }
}

/// Moves the commands out, leaving none.
fn take_commands(v: &mut Vec<Command>) -> (r: Vec<Command>)
    ensures
        r@ == old(v)@,
        final(v)@.len() == 0,
{
    let mut e: Vec<Command> = Vec::new();
    core::mem::swap(v, &mut e);
    e
}

/// Relies on `std::path::Path::join`: `exe` where it is absolute, else `exe`
/// below `base`.
pub uninterp spec fn path_join(base: Seq<char>, exe: Seq<char>) -> Seq<char>;

/// Relies on `std::path::Path::join`; both parts are UTF-8, so the joined path is.
#[verifier::external_body]
fn join_path(base: &str, exe: &str) -> (r: String)
    ensures
        r@ == path_join(base@, exe@),
{
    std::path::Path::new(base).join(exe).to_string_lossy().into_owned()
}

/// `after` is `before` with every command given, sorted, the allow-list that
/// applies to it under `global`; nothing else differs.
pub open spec fn resolved(before: Bot, after: Bot, global: Option<Seq<i64>>) -> bool {
    &&& after.token == before.token
    &&& after.allowed == before.allowed
    &&& after.commands@.len() == before.commands@.len()
    &&& forall|i: int|
        0 <= i < after.commands@.len() ==> (#[trigger] after.commands@[i]) == (Command {
            allowed: after.commands@[i].allowed,
            ..before.commands@[i]
        })
    &&& forall|i: int|
        0 <= i < after.commands@.len() ==> stored_as(
            list_view(#[trigger] after.commands@[i].allowed),
            inherited(list_view(before.commands@[i].allowed), list_view(before.allowed), global),
        )
}

impl Bot {
    /// Every command's allow-list is in ascending order.
    pub open spec fn wf(&self) -> bool {
        forall|i: int| 0 <= i < self.commands@.len() ==> (#[trigger] self.commands@[i]).wf()
    }

    /// Gives every command the allow-list that applies to it (its own, else the
    /// bot's, else `global`), sorted. Nothing else changes.
    pub fn resolve(&mut self, global: &Option<Vec<i64>>)
        ensures
            resolved(*old(self), *final(self), list_view(*global)),
            final(self).wf(),
    {
        let mut cmds = take_commands(&mut self.commands);
        let ghost orig = cmds@;
        let n = cmds.len();
        let mut out: Vec<Command> = Vec::new();
        let mut i: usize = 0;
        while i < n
            invariant
                i <= n,
                n == orig.len(),
                cmds@ == orig.subrange(i as int, n as int),
                out@.len() == i,
                forall|k: int|
                    0 <= k < i ==> (#[trigger] out@[k]) == (Command { allowed: out@[k].allowed, ..orig[k] }),
                forall|k: int|
                    0 <= k < i ==> stored_as(
                        list_view(#[trigger] out@[k].allowed),
                        inherited(list_view(orig[k].allowed), list_view(self.allowed), list_view(*global)),
                    ),
            decreases n - i,
        {
            let c = cmds.remove(0);
            assert(c == orig[i as int]);
            let Command { regex, executable, args, input, output, mode, allowed } = c;
            let resolved = resolve_list(allowed, &self.allowed, global);
            out.push(Command { regex, executable, args, input, output, mode, allowed: resolved });
            assert(cmds@ == orig.subrange(i + 1, n as int));
            i = i + 1;
        }
        self.commands = out;
        proof {
            assert forall|k: int| 0 <= k < self.commands@.len() implies (#[trigger] self.commands@[k]).wf() by {
                assert(stored_as(
                    list_view(self.commands@[k].allowed),
                    inherited(list_view(orig[k].allowed), list_view(old(self).allowed), list_view(*global)),
                ));
            }
        }
    }

    /// Resolves the allow-lists with the bot's own as the outermost level.
    pub fn apply_inheritance(&mut self)
        ensures
            resolved(*old(self), *final(self), None),
            final(self).wf(),
    {
        self.resolve(&None);
    }

    /// Makes every executable path relative to `base_dir` absolute by joining it
    /// below `base_dir`. Nothing else changes.
    pub fn fix_relative_paths(&mut self, base_dir: &str)
        ensures
            final(self).token == old(self).token,
            final(self).allowed == old(self).allowed,
            final(self).commands@.len() == old(self).commands@.len(),
            forall|i: int|
                0 <= i < final(self).commands@.len() ==> (#[trigger] final(self).commands@[i])
                    == (Command { executable: final(self).commands@[i].executable, ..old(self).commands@[i] }),
            forall|i: int|
                0 <= i < final(self).commands@.len() ==> (#[trigger] final(self).commands@[i]).executable@
                    == path_join(base_dir@, old(self).commands@[i].executable@),
            old(self).wf() ==> final(self).wf(),
    {
        let mut cmds = take_commands(&mut self.commands);
        let ghost orig = cmds@;
        let n = cmds.len();
        let mut out: Vec<Command> = Vec::new();
        let mut i: usize = 0;
        while i < n
            invariant
                i <= n,
                n == orig.len(),
                cmds@ == orig.subrange(i as int, n as int),
                out@.len() == i,
                forall|k: int|
                    0 <= k < i ==> (#[trigger] out@[k]) == (Command { executable: out@[k].executable, ..orig[k] }),
                forall|k: int|
                    0 <= k < i ==> (#[trigger] out@[k]).executable@ == path_join(base_dir@, orig[k].executable@),
            decreases n - i,
        {
            let c = cmds.remove(0);
            assert(c == orig[i as int]);
            let Command { regex, executable, args, input, output, mode, allowed } = c;
            let abs = join_path(base_dir, executable.as_str());
            out.push(Command { regex, executable: abs, args, input, output, mode, allowed });
            assert(cmds@ == orig.subrange(i + 1, n as int));
            i = i + 1;
        }
        self.commands = out;
        proof {
            if old(self).wf() {
                assert forall|k: int| 0 <= k < self.commands@.len() implies (#[trigger] self.commands@[k]).wf() by {
                    assert(orig[k].wf());
                }
            }
        }
    }
}

/// Resolves the allow-lists of every bot against `global`.
pub fn resolve_all(global: &Option<Vec<i64>>, bots: Vec<Bot>) -> (r: Vec<Bot>)
    ensures
        r@.len() == bots@.len(),
        forall|b: int| 0 <= b < r@.len() ==> resolved(bots@[b], #[trigger] r@[b], list_view(*global)),
        forall|b: int| 0 <= b < r@.len() ==> (#[trigger] r@[b]).wf(),
{
    let mut bots = bots;
    let ghost orig = bots@;
    let n = bots.len();
    let mut out: Vec<Bot> = Vec::new();
    let mut i: usize = 0;
    while i < n
        invariant
            i <= n,
            n == orig.len(),
            bots@ == orig.subrange(i as int, n as int),
            out@.len() == i,
            forall|b: int| 0 <= b < i ==> resolved(orig[b], #[trigger] out@[b], list_view(*global)),
            forall|b: int| 0 <= b < i ==> (#[trigger] out@[b]).wf(),
        decreases n - i,
    {
        let mut bot = bots.remove(0);
        assert(bot == orig[i as int]);
        bot.resolve(global);
        out.push(bot);
        assert(bots@ == orig.subrange(i + 1, n as int));
        i = i + 1;
    }
    out
}

/// Where no level gives an allow-list, the stored list admits every identifier.
pub proof fn lemma_unrestricted(
    own: Option<Seq<i64>>,
    bot: Option<Seq<i64>>,
    global: Option<Seq<i64>>,
    stored: Option<Seq<i64>>,
    id: i64,
)
    requires
        own.is_none(),
        bot.is_none(),
        global.is_none(),
        stored_as(stored, inherited(own, bot, global)),
    ensures
        admits(stored, id),
{
}

/// The most specific list present wins: the command's own over the bot's, the
/// bot's over the global one. The stored list admits exactly the identifiers
/// of that list.
pub proof fn lemma_most_specific_wins(
    own: Option<Seq<i64>>,
    bot: Option<Seq<i64>>,
    global: Option<Seq<i64>>,
    stored: Option<Seq<i64>>,
    id: i64,
)
    requires
        stored_as(stored, inherited(own, bot, global)),
    ensures
        own.is_some() ==> (admits(stored, id) <==> own.unwrap().contains(id)),
        own.is_none() && bot.is_some() ==> (admits(stored, id) <==> bot.unwrap().contains(id)),
        own.is_none() && bot.is_none() && global.is_some() ==> (admits(stored, id)
            <==> global.unwrap().contains(id)),
{
    let e = inherited(own, bot, global);
    if e.is_some() {
        let s = stored.unwrap();
        assert(s.contains(id) <==> s.to_multiset().count(id) > 0);
        assert(e.unwrap().contains(id) <==> e.unwrap().to_multiset().count(id) > 0);
    }
}

/// Resolving a second time, with the same bot and global lists, changes
/// nothing: the lists stored the first time are stored again.
pub proof fn lemma_resolution_idempotent(
    own: Option<Seq<i64>>,
    bot: Option<Seq<i64>>,
    global: Option<Seq<i64>>,
    once: Option<Seq<i64>>,
    twice: Option<Seq<i64>>,
)
    requires
        stored_as(once, inherited(own, bot, global)),
        stored_as(twice, inherited(once, bot, global)),
    ensures
        twice == once,
{
    if once.is_some() {
        let leq = |a: i64, b: i64| id_leq(a, b);
        assert(total_ordering(leq));
        assert(sorted_by(once.unwrap(), leq));
        assert(sorted_by(twice.unwrap(), leq));
        lemma_sorted_unique(once.unwrap(), twice.unwrap(), leq);
    }
}

/// Resolving a bot a second time, with the same global list, changes no
/// command: each keeps the allow-list stored the first time.
pub proof fn lemma_bot_resolution_idempotent(
    configured: Bot,
    once: Bot,
    twice: Bot,
    global: Option<Seq<i64>>,
)
    requires
        resolved(configured, once, global),
        resolved(once, twice, global),
    ensures
        twice.token == once.token,
        twice.allowed == once.allowed,
        twice.commands@.len() == once.commands@.len(),
        forall|i: int|
            0 <= i < twice.commands@.len() ==> list_view((#[trigger] twice.commands@[i]).allowed)
                == list_view(once.commands@[i].allowed),
        forall|i: int|
            0 <= i < twice.commands@.len() ==> (#[trigger] twice.commands@[i]) == (Command {
                allowed: twice.commands@[i].allowed,
                ..once.commands@[i]
            }),
{
    assert forall|i: int| 0 <= i < twice.commands@.len() implies list_view(
        (#[trigger] twice.commands@[i]).allowed,
    ) == list_view(once.commands@[i].allowed) by {
        lemma_resolution_idempotent(
            list_view(configured.commands@[i].allowed),
            list_view(configured.allowed),
            global,
            list_view(once.commands@[i].allowed),
            list_view(twice.commands@[i].allowed),
        );
    }
}

} // verus!
