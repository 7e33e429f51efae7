//! Discovery of the device's remote items. At start-up the device announces
//! each item in a line `I <time> RPC_REGISTER id=<n> <FN|SET|GET> <description>`.
//! The scanner collects them, ignoring the start-up noise before the first,
//! and stops at the first line after them that is no announcement.
use vstd::prelude::*;
use crate::frame::{all_digits, digits_capped, digits_only, digits_value};
use crate::log::{decorate_log, log_model, LogRecord};
use crate::text::{
    chars_of, has_tok, is_digit, is_ws, lemma_token_after, lemma_word_at, next_token, rest, rest_at,
    run_is, skip_ws, tok, tok_end, trim_end_from,
};

verus! {

/// What a remote item does when called.
#[derive(Clone, Copy, Debug, PartialEq, Eq, Structural)]
pub enum CommandKind {
    /// `FN`: a call, with an optional argument.
    Function,
    /// `GET`: a read; the device answers in its log.
    Getter,
    /// `SET`: a write of one argument.
    Setter,
}

/// One announced remote item.
#[derive(Clone, Debug, PartialEq, Eq)]
pub struct CommandDescriptor {
    pub id: u8,
    pub kind: CommandKind,
    pub description: String,
}

impl View for CommandDescriptor {
    type V = (u8, CommandKind, Seq<char>);

    open spec fn view(&self) -> (u8, CommandKind, Seq<char>) {
        (self.id, self.kind, self.description@)
    }
}

pub open spec fn descriptor_views(v: Seq<CommandDescriptor>) -> Seq<(u8, CommandKind, Seq<char>)> {
    v.map_values(|d: CommandDescriptor| d@)
}

pub open spec fn string_views(v: Seq<String>) -> Seq<Seq<char>> {
    v.map_values(|s: String| s@)
}

pub open spec fn register_word() -> Seq<char> {
    seq!['R', 'P', 'C', '_', 'R', 'E', 'G', 'I', 'S', 'T', 'E', 'R']
}

/// The kind that an announcement's kind token names.
pub open spec fn kind_of(t: Seq<char>) -> Option<CommandKind> {
    if t == seq!['F', 'N'] {
        Some(CommandKind::Function)
    } else if t == seq!['G', 'E', 'T'] {
        Some(CommandKind::Getter)
    } else if t == seq!['S', 'E', 'T'] {
        Some(CommandKind::Setter)
    } else {
        None
    }
}

/// A `u8` written in decimal: an optional '+', then digits, at most 255.
pub open spec fn u8_of(t: Seq<char>) -> Option<u8> {
    let b = if t.len() > 0 && t[0] == '+' { 1int } else { 0int };
    let d = t.subrange(b, t.len() as int);
    if d.len() >= 1 && all_digits(d) && digits_value(d) <= 255 {
        Some(digits_value(d) as u8)
    } else {
        None
    }
}

/// The id that an `id=<n>` token gives.
pub open spec fn id_of(t: Seq<char>) -> Option<u8> {
    if t.len() >= 3 && t.subrange(0, 3) == seq!['i', 'd', '='] {
        u8_of(t.subrange(3, t.len() as int))
    } else {
        None
    }
}

/// The item that the line `s` announces, if it is an announcement. The
/// description is all the text after the kind token, trimmed at both ends,
/// with the whitespace inside it kept.
pub open spec fn registration(s: Seq<char>) -> Option<(u8, CommandKind, Seq<char>)> {
    let e0 = tok_end(s, 0);
    let e1 = tok_end(s, e0);
    let e2 = tok_end(s, e1);
    let e3 = tok_end(s, e2);
    let e4 = tok_end(s, e3);
    if has_tok(s, 0) && tok(s, 0) == seq!['I'] && has_tok(s, e0) && has_tok(s, e1) && tok(s, e1)
        == register_word() && has_tok(s, e2) && id_of(tok(s, e2)) is Some && has_tok(s, e3)
        && kind_of(tok(s, e3)) is Some {
        Some((id_of(tok(s, e2))->0, kind_of(tok(s, e3))->0, rest(s, e4)))
    } else {
        None
    }
}

fn id_at(s: &Vec<char>, a: usize, b: usize) -> (r: Option<u8>)
    requires
        a <= b <= s@.len(),
    ensures
        r == id_of(s@.subrange(a as int, b as int)),
{
    let ghost t = s@.subrange(a as int, b as int);
    let key: [char; 3] = ['i', 'd', '='];
    assert(key@ =~= seq!['i', 'd', '=']);
    if b - a < 3 || !run_is(s, a, a + 3, &key) {
        proof {
            if t.len() >= 3 {
                assert(t.subrange(0, 3) =~= s@.subrange(a as int, a + 3));
            }
        }
        return None;
    }
    assert(t.subrange(0, 3) =~= s@.subrange(a as int, a + 3));
    let ghost u = t.subrange(3, t.len() as int);
    let p = a + 3;
    let plus = p < b && s[p] == '+';
    let d: usize = if plus { p + 1 } else { p };
    assert(u.len() > 0 ==> u[0] == s@[p as int]);
    assert(u.subrange(if u.len() > 0 && u[0] == '+' { 1int } else { 0int }, u.len() as int)
        =~= s@.subrange(d as int, b as int));
    if d >= b || !digits_only(s, d, b) {
        return None;
    }
    let v = digits_capped(s, d, b, 255);
    if v > 255 {
        return None;
    }
    Some(v as u8)
}

fn kind_at(s: &Vec<char>, a: usize, b: usize) -> (r: Option<CommandKind>)
    requires
        a <= b <= s@.len(),
    ensures
        r == kind_of(s@.subrange(a as int, b as int)),
{
    let fun: [char; 2] = ['F', 'N'];
    let get: [char; 3] = ['G', 'E', 'T'];
    let set: [char; 3] = ['S', 'E', 'T'];
    assert(fun@ =~= seq!['F', 'N']);
    assert(get@ =~= seq!['G', 'E', 'T']);
    assert(set@ =~= seq!['S', 'E', 'T']);
    if run_is(s, a, b, &fun) {
        Some(CommandKind::Function)
    } else if run_is(s, a, b, &get) {
        Some(CommandKind::Getter)
    } else if run_is(s, a, b, &set) {
        Some(CommandKind::Setter)
    } else {
        None
    }
}

/// The item that `line` announces, or `None` if it is no announcement.
pub fn parse_registration(line: &str) -> (r: Option<CommandDescriptor>)
    ensures
        match registration(line@) {
            Some(v) => r matches Some(d) && d@ == v,
            None => r is None,
        },
{
    let s = chars_of(line);
    let n = s.len();
    let info: [char; 1] = ['I'];
    let word: [char; 12] = ['R', 'P', 'C', '_', 'R', 'E', 'G', 'I', 'S', 'T', 'E', 'R'];
    assert(info@ =~= seq!['I']);
    assert(word@ =~= register_word());
    let (a0, e0) = next_token(&s, 0);
    if a0 >= n || !run_is(&s, a0, e0, &info) {
        return None;
    }
    let (a1, e1) = next_token(&s, e0);
    if a1 >= n {
        return None;
    }
    let (a2, e2) = next_token(&s, e1);
    if a2 >= n || !run_is(&s, a2, e2, &word) {
        return None;
    }
    let (a3, e3) = next_token(&s, e2);
    if a3 >= n {
        return None;
    }
    let id = match id_at(&s, a3, e3) {
        Some(id) => id,
        None => return None,
    };
    let (a4, e4) = next_token(&s, e3);
    if a4 >= n {
        return None;
    }
    let kind = match kind_at(&s, a4, e4) {
        Some(k) => k,
        None => return None,
    };
    Some(CommandDescriptor { id, kind, description: rest_at(&s, e4) })
}

/// When discovery ends, once something has been found.
#[derive(Clone, Copy, Debug, PartialEq, Eq, Structural)]
pub enum StopPolicy {
    /// At the first line after the announcements that announces nothing.
    AtFirstMismatch,
    /// Never: every line is read, and lines of other kinds are skipped.
    Never,
}

/// One step of discovery: what has been found, and whether it is over, after
/// `line` is seen with `found` collected before it. A line that announces
/// an item adds it; any other line is start-up noise while nothing is found,
/// and ends discovery once something is, if the policy says so.
pub open spec fn scan_step(
    pol: StopPolicy,
    found: Seq<(u8, CommandKind, Seq<char>)>,
    line: Seq<char>,
) -> (Seq<(u8, CommandKind, Seq<char>)>, bool) {
    match registration(line) {
        Some(d) => (found.push(d), false),
        None => (found, pol == StopPolicy::AtFirstMismatch && found.len() > 0),
    }
}

/// Discovery over `lines` from index `i`, with `found` collected so far: the
/// items found and the number of lines read, the one that ended it among them.
pub open spec fn scan_from(
    pol: StopPolicy,
    lines: Seq<Seq<char>>,
    i: int,
    found: Seq<(u8, CommandKind, Seq<char>)>,
) -> (Seq<(u8, CommandKind, Seq<char>)>, int)
    decreases lines.len() - i,
{
    if i < 0 || i >= lines.len() {
        (found, lines.len() as int)
    } else if scan_step(pol, found, lines[i]).1 {
        (scan_step(pol, found, lines[i]).0, i + 1)
    } else {
        scan_from(pol, lines, i + 1, scan_step(pol, found, lines[i]).0)
    }
}

/// Discovery over a whole stream of lines, under a stop policy.
pub open spec fn discovery_with(pol: StopPolicy, lines: Seq<Seq<char>>) -> (
    Seq<(u8, CommandKind, Seq<char>)>,
    int,
) {
    scan_from(pol, lines, 0, Seq::empty())
}

/// Discovery over a whole stream of lines, stopping at the first mismatch.
pub open spec fn discovery(lines: Seq<Seq<char>>) -> (Seq<(u8, CommandKind, Seq<char>)>, int) {
    discovery_with(StopPolicy::AtFirstMismatch, lines)
}

/// The discovery phase, fed one line at a time as the lines arrive.
pub struct Scanner {
    commands: Vec<CommandDescriptor>,
    done: bool,
    policy: StopPolicy,
}

impl Scanner {
    pub closed spec fn found(&self) -> Seq<(u8, CommandKind, Seq<char>)> {
        descriptor_views(self.commands@)
    }

    pub closed spec fn is_over(&self) -> bool {
        self.done
    }

    pub closed spec fn stop_policy(&self) -> StopPolicy {
        self.policy
    }

    /// A scanner that stops at the first mismatch.
    pub fn new() -> (r: Scanner)
        ensures
            r.found() == Seq::<(u8, CommandKind, Seq<char>)>::empty(),
            !r.is_over(),
            r.stop_policy() == StopPolicy::AtFirstMismatch,
    {
        Scanner::with_policy(StopPolicy::AtFirstMismatch)
    }

    pub fn with_policy(policy: StopPolicy) -> (r: Scanner)
        ensures
            r.found() == Seq::<(u8, CommandKind, Seq<char>)>::empty(),
            !r.is_over(),
            r.stop_policy() == policy,
    {
        let r = Scanner { commands: Vec::new(), done: false, policy };
        assert(descriptor_views(r.commands@) =~= Seq::<(u8, CommandKind, Seq<char>)>::empty());
        r
    }

    /// Whether discovery has ended.
    pub fn is_done(&self) -> (r: bool)
        ensures
            r == self.is_over(),
    {
        self.done
    }

    /// Takes in the next line; returns whether discovery goes on.
    pub fn feed(&mut self, line: &str) -> (more: bool)
        requires
            !old(self).is_over(),
        ensures
            (final(self).found(), final(self).is_over()) == scan_step(
                old(self).stop_policy(),
                old(self).found(),
                line@,
            ),
            final(self).stop_policy() == old(self).stop_policy(),
            more == !final(self).is_over(),
    {
        match parse_registration(line) {
            Some(d) => {
                let ghost v = d@;
                self.commands.push(d);
                assert(descriptor_views(self.commands@) =~= descriptor_views(old(self).commands@).push(v));
                true
            },
            None => {
                if self.policy == StopPolicy::AtFirstMismatch && self.commands.len() > 0 {
                    self.done = true;
                    false
                } else {
                    true
                }
            },
        }
    }

    /// The items found so far, handed over when discovery is done.
    pub fn into_commands(self) -> (r: Vec<CommandDescriptor>)
        ensures
            descriptor_views(r@) == self.found(),
    {
        self.commands
    }
}

/// The outcome of discovery over a list of lines.
pub struct Discovery {
    /// The announced items, in the order of their lines.
    pub commands: Vec<CommandDescriptor>,
    /// How many lines discovery read; the rest of the stream starts there.
    pub consumed: usize,
    /// The decoded record of each line read, in order.
    pub records: Vec<LogRecord>,
}

/// Runs discovery over `lines`, stopping at the first mismatch. Every line
/// that discovery reads is decoded for display, whether it announces an item
/// or not; the lines after `consumed` are left to the relay.
pub fn discover(lines: &Vec<String>) -> (r: Discovery)
    ensures
        descriptor_views(r.commands@) == discovery(string_views(lines@)).0,
        r.consumed == discovery(string_views(lines@)).1,
        r.records@.len() == r.consumed,
        forall|i: int| 0 <= i < r.consumed ==> #[trigger] r.records@[i]@ == log_model(lines@[i]@),
{
    discover_with(lines, StopPolicy::AtFirstMismatch)
}

/// Runs discovery over `lines` under the stop policy `policy`.
pub fn discover_with(lines: &Vec<String>, policy: StopPolicy) -> (r: Discovery)
    ensures
        descriptor_views(r.commands@) == discovery_with(policy, string_views(lines@)).0,
        r.consumed == discovery_with(policy, string_views(lines@)).1,
        r.records@.len() == r.consumed,
        forall|i: int| 0 <= i < r.consumed ==> #[trigger] r.records@[i]@ == log_model(lines@[i]@),
{
    let ghost ls = string_views(lines@);
    let mut scanner = Scanner::with_policy(policy);
    let mut records: Vec<LogRecord> = Vec::new();
    let mut i: usize = 0;
    while i < lines.len()
        invariant
            i <= lines@.len(),
            ls == string_views(lines@),
            !scanner.is_over(),
            scanner.stop_policy() == policy,
            scan_from(policy, ls, i as int, scanner.found()) == discovery_with(policy, ls),
            records@.len() == i,
            forall|k: int| 0 <= k < i ==> #[trigger] records@[k]@ == log_model(lines@[k]@),
        decreases lines@.len() - i,
    {
        let line = lines[i].as_str();
        assert(ls[i as int] == lines@[i as int]@);
        records.push(decorate_log(line));
        let more = scanner.feed(line);
        i = i + 1;
        if !more {
            return Discovery { commands: scanner.into_commands(), consumed: i, records };
        }
    }
    Discovery { commands: scanner.into_commands(), consumed: i, records }
}

/// The announcement of item `n` (its decimal digits) of kind `k`, stamped
/// `t`, with description `d`, fields separated by single spaces.
pub open spec fn announcement(t: Seq<char>, n: Seq<char>, k: Seq<char>, d: Seq<char>) -> Seq<char> {
    seq!['I', ' '] + t + seq![' '] + register_word() + seq![' ', 'i', 'd', '='] + n + seq![' '] + k
        + seq![' '] + d
}

pub open spec fn no_ws(w: Seq<char>) -> bool {
    forall|i: int| 0 <= i < w.len() ==> !is_ws(#[trigger] w[i])
}

/// An announcement reads back as exactly what it announces: for every
/// stamp token `t`, every id `n` written in decimal digits, every kind token
/// `k` and every description `d` (free text that may hold runs of spaces
/// inside, but neither starts nor ends with whitespace), the line gives the
/// item `(n, k, d)` with `d` kept verbatim, and during discovery it adds
/// exactly that one item, whatever the policy and whatever was found before.
pub proof fn lemma_announcement_parses(
    t: Seq<char>,
    n: Seq<char>,
    k: Seq<char>,
    d: Seq<char>,
    pol: StopPolicy,
    found: Seq<(u8, CommandKind, Seq<char>)>,
)
    requires
        t.len() > 0,
        no_ws(t),
        n.len() > 0,
        all_digits(n),
        digits_value(n) <= 255,
        kind_of(k) is Some,
        d.len() > 0,
        !is_ws(d[0]),
        !is_ws(d[d.len() - 1]),
    ensures
        registration(announcement(t, n, k, d)) == Some((digits_value(n) as u8, kind_of(k)->0, d)),
        scan_step(pol, found, announcement(t, n, k, d)) == (
            found.push((digits_value(n) as u8, kind_of(k)->0, d)),
            false,
        ),
{
    lemma_announcement_reads(t, n, k, d);
}

proof fn lemma_announcement_reads(t: Seq<char>, n: Seq<char>, k: Seq<char>, d: Seq<char>)
    requires
        t.len() > 0,
        no_ws(t),
        n.len() > 0,
        all_digits(n),
        digits_value(n) <= 255,
        kind_of(k) is Some,
        d.len() > 0,
        !is_ws(d[0]),
        !is_ws(d[d.len() - 1]),
    ensures
        registration(announcement(t, n, k, d)) == Some((digits_value(n) as u8, kind_of(k)->0, d)),
{
    let s = announcement(t, n, k, d);
    let id_tok = seq!['i', 'd', '='] + n;
    let sep_stamp = 1int;
    let sep_word = sep_stamp + 1 + t.len();
    let sep_id = sep_word + 13;
    let sep_kind = sep_id + 1 + id_tok.len();
    let sep_desc = sep_kind + 1 + k.len();
    assert(s.len() == sep_desc + 1 + d.len());
    assert(s.subrange(0, 1) =~= seq!['I']);
    assert(s.subrange(sep_stamp + 1, sep_word) =~= t);
    assert(s.subrange(sep_word + 1, sep_id) =~= register_word());
    assert(s.subrange(sep_id + 1, sep_kind) =~= id_tok);
    assert(s.subrange(sep_kind + 1, sep_desc) =~= k);
    assert(s.subrange(sep_desc + 1, s.len() as int) =~= d);
    assert(s[sep_stamp] == ' ' && s[sep_word] == ' ' && s[sep_id] == ' ' && s[sep_kind] == ' ' && s[sep_desc] == ' ');
    assert(no_ws(seq!['I']));
    assert(no_ws(register_word()));
    assert(no_ws(id_tok)) by {
        assert forall|i: int| 0 <= i < id_tok.len() implies !is_ws(#[trigger] id_tok[i]) by {
            if i >= 3 {
                assert(is_digit(n[i - 3]));
            }
        }
    }
    assert(no_ws(k));
    lemma_word_at(s, 0, seq!['I']);
    lemma_token_after(s, sep_stamp, t);
    lemma_token_after(s, sep_word, register_word());
    lemma_token_after(s, sep_id, id_tok);
    lemma_token_after(s, sep_kind, k);
    assert(id_tok.subrange(0, 3) =~= seq!['i', 'd', '=']);
    assert(id_tok.subrange(3, id_tok.len() as int) =~= n);
    assert(is_digit(n[0]));
    assert(n.subrange(0, n.len() as int) =~= n);
    assert(skip_ws(s, sep_desc + 1) == sep_desc + 1);
    assert(trim_end_from(s, s.len() as int) == s.len());
    assert(rest(s, sep_desc) =~= d);
}

/// A stream of announcements alone is discovered whole: every line is
/// read, and it gives one item per line, in order.
pub proof fn lemma_all_announced(pol: StopPolicy, lines: Seq<Seq<char>>)
    requires
        forall|i: int| 0 <= i < lines.len() ==> (#[trigger] registration(lines[i])) is Some,
    ensures
        discovery_with(pol, lines).1 == lines.len(),
        discovery_with(pol, lines).0 == lines.map_values(|l: Seq<char>| registration(l)->0),
{
    lemma_all_announced_from(pol, lines, 0);
    assert(lines.subrange(0, 0).map_values(|l: Seq<char>| registration(l)->0) =~= Seq::<
        (u8, CommandKind, Seq<char>),
    >::empty());
    assert(lines.subrange(0, lines.len() as int) =~= lines);
}

proof fn lemma_all_announced_from(pol: StopPolicy, lines: Seq<Seq<char>>, i: int)
    requires
        0 <= i <= lines.len(),
        forall|j: int| 0 <= j < lines.len() ==> (#[trigger] registration(lines[j])) is Some,
    ensures
        scan_from(pol, lines, i, lines.subrange(0, i).map_values(|l: Seq<char>| registration(l)->0))
            == (lines.map_values(|l: Seq<char>| registration(l)->0), lines.len() as int),
    decreases lines.len() - i,
{
    let f = |l: Seq<char>| registration(l)->0;
    if i < lines.len() {
        assert(registration(lines[i]) is Some);
        assert(lines.subrange(0, i).map_values(f).push(f(lines[i])) =~= lines.subrange(0, i + 1).map_values(f));
        lemma_all_announced_from(pol, lines, i + 1);
    } else {
        assert(lines.subrange(0, i) =~= lines);
    }
}

/// The items that `lines` announce, in order; other lines give none.
pub open spec fn announced(lines: Seq<Seq<char>>) -> Seq<(u8, CommandKind, Seq<char>)>
    decreases lines.len(),
{
    if lines.len() == 0 {
        Seq::empty()
    } else {
        match registration(lines.last()) {
            Some(d) => announced(lines.drop_last()).push(d),
            None => announced(lines.drop_last()),
        }
    }
}

/// What discovery finds is exactly what the lines it read announce, in
/// their order: a line that announces nothing never adds an item, before or
/// after the first one.
pub proof fn lemma_discovery_exact(pol: StopPolicy, lines: Seq<Seq<char>>)
    ensures
        0 <= discovery_with(pol, lines).1 <= lines.len(),
        discovery_with(pol, lines).0 == announced(lines.subrange(0, discovery_with(pol, lines).1)),
{
    assert(lines.subrange(0, 0) =~= Seq::<Seq<char>>::empty());
    lemma_scan_exact(pol, lines, 0);
}

proof fn lemma_scan_exact(pol: StopPolicy, lines: Seq<Seq<char>>, i: int)
    requires
        0 <= i <= lines.len(),
    ensures
        i <= scan_from(pol, lines, i, announced(lines.subrange(0, i))).1 <= lines.len(),
        scan_from(pol, lines, i, announced(lines.subrange(0, i))).0 == announced(
            lines.subrange(0, scan_from(pol, lines, i, announced(lines.subrange(0, i))).1),
        ),
    decreases lines.len() - i,
{
    let found = announced(lines.subrange(0, i));
    if i < lines.len() {
        let next = lines.subrange(0, i + 1);
        assert(next.drop_last() =~= lines.subrange(0, i));
        assert(next.last() == lines[i]);
        assert(scan_step(pol, found, lines[i]).0 == announced(next));
        if !scan_step(pol, found, lines[i]).1 {
            lemma_scan_exact(pol, lines, i + 1);
        }
    } else {
        assert(lines.subrange(0, i) =~= lines.subrange(0, lines.len() as int));
    }
}

/// Discovery ends early only at a line that announces nothing, read after at
/// least one item was found; that line is read (and shown) by discovery,
/// and the stream resumes right after it.
pub proof fn lemma_discovery_stop(lines: Seq<Seq<char>>)
    ensures
        discovery(lines).1 < lines.len() ==> {
            &&& discovery(lines).1 >= 1
            &&& registration(lines[discovery(lines).1 - 1]) is None
            &&& discovery(lines).0.len() > 0
        },
{
    lemma_scan_stop(lines, 0, Seq::empty());
}

proof fn lemma_scan_stop(lines: Seq<Seq<char>>, i: int, found: Seq<(u8, CommandKind, Seq<char>)>)
    requires
        0 <= i <= lines.len(),
    ensures
        scan_from(StopPolicy::AtFirstMismatch, lines, i, found).1 < lines.len() ==> {
            &&& scan_from(StopPolicy::AtFirstMismatch, lines, i, found).1 >= i + 1
            &&& registration(lines[scan_from(StopPolicy::AtFirstMismatch, lines, i, found).1 - 1]) is None
            &&& scan_from(StopPolicy::AtFirstMismatch, lines, i, found).0.len() > 0
        },
    decreases lines.len() - i,
{
    if i < lines.len() {
        let (f2, over) = scan_step(StopPolicy::AtFirstMismatch, found, lines[i]);
        if !over {
            lemma_scan_stop(lines, i + 1, f2);
        }
    }
}

/// Under the policy that never stops, discovery reads every line.
pub proof fn lemma_never_stops(lines: Seq<Seq<char>>)
    ensures
        discovery_with(StopPolicy::Never, lines).1 == lines.len(),
{
    lemma_never_stops_from(lines, 0, Seq::empty());
}

proof fn lemma_never_stops_from(
    lines: Seq<Seq<char>>,
    i: int,
    found: Seq<(u8, CommandKind, Seq<char>)>,
)
    requires
        0 <= i <= lines.len(),
    ensures
        scan_from(StopPolicy::Never, lines, i, found).1 == lines.len(),
    decreases lines.len() - i,
{
    if i < lines.len() {
        lemma_never_stops_from(lines, i + 1, scan_step(StopPolicy::Never, found, lines[i]).0);
    }
}

} // verus!
