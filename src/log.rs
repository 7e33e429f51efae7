//! The log line grammar: a line is read token by token into a record, and a
//! position whose token does not fit leaves the rest as plain text. Every line
//! gives a record; one that fits nothing is kept as it stands.
use vstd::prelude::*;
use crate::text::{
    chars_of, count_char, count_in, has_tok, index_of, index_of_at, is_digit, is_upper, next_token,
    string_of, tok, tok_end, tok_start, trim_white, trim_white_of, words, words_at,
};

verus! {

#[derive(Clone, Copy, Debug, PartialEq, Eq, Structural)]
pub enum Level {
    Error,
    Warn,
    Info,
    Debug,
    Trace,
}

/// One decoded log line. Each variant is one of the shapes the grammar
/// tells apart, with the tokens it read, as text.
#[derive(Clone, Debug, PartialEq, Eq)]
pub enum LogRecord {
    /// The line as it stands (surrounding whitespace cut off).
    Raw { text: String },
    /// A level, then a token that is no timestamp, then the rest.
    Untimed { level: Level, info: String, rest: String },
    /// Level, timestamp, an upper-case category, then the rest.
    Tagged { level: Level, time: String, category: String, rest: String },
    /// Level, timestamp, a token of no known kind, then the rest.
    Plain { level: Level, time: String, info: String, rest: String },
    /// A trace: level, timestamp, span, then `name=value`.
    Variable { level: Level, time: String, span: String, name: String, value: String },
    /// Level, timestamp, span, an upper-case category, then the rest.
    SpanTagged { level: Level, time: String, span: String, category: String, rest: String },
    /// Level, timestamp, span, a token of no known kind, then the rest.
    SpanPlain { level: Level, time: String, span: String, info: String, rest: String },
}

/// What a `LogRecord` holds, with its texts as character sequences.
pub enum LogModel {
    Raw { text: Seq<char> },
    Untimed { level: Level, info: Seq<char>, rest: Seq<char> },
    Tagged { level: Level, time: Seq<char>, category: Seq<char>, rest: Seq<char> },
    Plain { level: Level, time: Seq<char>, info: Seq<char>, rest: Seq<char> },
    Variable { level: Level, time: Seq<char>, span: Seq<char>, name: Seq<char>, value: Seq<char> },
    SpanTagged {
        level: Level,
        time: Seq<char>,
        span: Seq<char>,
        category: Seq<char>,
        rest: Seq<char>,
    },
    SpanPlain { level: Level, time: Seq<char>, span: Seq<char>, info: Seq<char>, rest: Seq<char> },
}

impl View for LogRecord {
    type V = LogModel;

    open spec fn view(&self) -> LogModel {
        match self {
            LogRecord::Raw { text } => LogModel::Raw { text: text@ },
            LogRecord::Untimed { level, info, rest } => LogModel::Untimed {
                level: *level,
                info: info@,
                rest: rest@,
            },
            LogRecord::Tagged { level, time, category, rest } => LogModel::Tagged {
                level: *level,
                time: time@,
                category: category@,
                rest: rest@,
            },
            LogRecord::Plain { level, time, info, rest } => LogModel::Plain {
                level: *level,
                time: time@,
                info: info@,
                rest: rest@,
            },
            LogRecord::Variable { level, time, span, name, value } => LogModel::Variable {
                level: *level,
                time: time@,
                span: span@,
                name: name@,
                value: value@,
            },
            LogRecord::SpanTagged { level, time, span, category, rest } => LogModel::SpanTagged {
                level: *level,
                time: time@,
                span: span@,
                category: category@,
                rest: rest@,
            },
            LogRecord::SpanPlain { level, time, span, info, rest } => LogModel::SpanPlain {
                level: *level,
                time: time@,
                span: span@,
                info: info@,
                rest: rest@,
            },
        }
    }
}

/// The level that a one-letter token names.
pub open spec fn level_of(t: Seq<char>) -> Option<Level> {
    if t.len() != 1 {
        None
    } else if t[0] == 'E' {
        Some(Level::Error)
    } else if t[0] == 'W' {
        Some(Level::Warn)
    } else if t[0] == 'I' {
        Some(Level::Info)
    } else if t[0] == 'D' {
        Some(Level::Debug)
    } else if t[0] == 'T' {
        Some(Level::Trace)
    } else {
        None
    }
}

/// `HH:MM:SS` in shape: digits and exactly two ':'.
pub open spec fn is_time(t: Seq<char>) -> bool {
    &&& forall|i: int| 0 <= i < t.len() ==> (#[trigger] t[i] == ':' || is_digit(t[i]))
    &&& count_char(t, ':') == 2
}

/// A span tag `X:Y`: exactly one ':'.
pub open spec fn is_span(t: Seq<char>) -> bool {
    count_char(t, ':') == 1
}

/// A category: upper-case letters and '_' only.
pub open spec fn is_category(t: Seq<char>) -> bool {
    forall|i: int| 0 <= i < t.len() ==> (#[trigger] t[i] == '_' || is_upper(t[i]))
}

/// The record that the line `line` decodes to. The line is first trimmed
/// of Unicode whitespace; its tokens are then split on ASCII whitespace, and
/// the text after the tokens read is those tokens joined by single spaces.
pub open spec fn log_model(line: Seq<char>) -> LogModel {
    let s = trim_white(line);
    let raw = LogModel::Raw { text: s };
    let e0 = tok_end(s, 0);
    let e1 = tok_end(s, e0);
    let e2 = tok_end(s, e1);
    let e3 = tok_end(s, e2);
    if !has_tok(s, 0) || level_of(tok(s, 0)) is None {
        raw
    } else if !has_tok(s, e0) {
        raw
    } else if !is_time(tok(s, e0)) {
        LogModel::Untimed { level: level_of(tok(s, 0))->0, info: tok(s, e0), rest: words(s, e1) }
    } else if !has_tok(s, e1) {
        raw
    } else if !is_span(tok(s, e1)) {
        if is_category(tok(s, e1)) {
            LogModel::Tagged {
                level: level_of(tok(s, 0))->0,
                time: tok(s, e0),
                category: tok(s, e1),
                rest: words(s, e2),
            }
        } else {
            LogModel::Plain {
                level: level_of(tok(s, 0))->0,
                time: tok(s, e0),
                info: tok(s, e1),
                rest: words(s, e2),
            }
        }
    } else if !has_tok(s, e2) {
        raw
    } else if level_of(tok(s, 0)) == Some(Level::Trace) {
        let a = tok_start(s, e2);
        let k = index_of(s, '=', a);
        if k >= e3 {
            raw
        } else {
            LogModel::Variable {
                level: Level::Trace,
                time: tok(s, e0),
                span: tok(s, e1),
                name: s.subrange(a, k),
                value: s.subrange(k + 1, e3),
            }
        }
    } else if is_category(tok(s, e2)) {
        LogModel::SpanTagged {
            level: level_of(tok(s, 0))->0,
            time: tok(s, e0),
            span: tok(s, e1),
            category: tok(s, e2),
            rest: words(s, e3),
        }
    } else {
        LogModel::SpanPlain {
            level: level_of(tok(s, 0))->0,
            time: tok(s, e0),
            span: tok(s, e1),
            info: tok(s, e2),
            rest: words(s, e3),
        }
    }
}

fn level_at(s: &Vec<char>, a: usize, b: usize) -> (r: Option<Level>)
    requires
        a <= b <= s@.len(),
    ensures
        r == level_of(s@.subrange(a as int, b as int)),
{
    if b - a != 1 {
        return None;
    }
    let c = s[a];
    assert(s@.subrange(a as int, b as int)[0] == c);
    if c == 'E' {
        Some(Level::Error)
    } else if c == 'W' {
        Some(Level::Warn)
    } else if c == 'I' {
        Some(Level::Info)
    } else if c == 'D' {
        Some(Level::Debug)
    } else if c == 'T' {
        Some(Level::Trace)
    } else {
        None
    }
}

fn time_at(s: &Vec<char>, a: usize, b: usize) -> (r: bool)
    requires
        a <= b <= s@.len(),
    ensures
        r == is_time(s@.subrange(a as int, b as int)),
{
    let ghost t = s@.subrange(a as int, b as int);
    let mut k = a;
    while k < b
        invariant
            a <= k <= b <= s@.len(),
            t == s@.subrange(a as int, b as int),
            forall|i: int| 0 <= i < k - a ==> (#[trigger] t[i] == ':' || is_digit(t[i])),
        decreases b - k,
    {
        let c = s[k];
        assert(t[k - a] == c);
        if c != ':' && !('0' <= c && c <= '9') {
            return false;
        }
        k = k + 1;
    }
    count_in(s, a, b, ':') == 2
}

fn category_at(s: &Vec<char>, a: usize, b: usize) -> (r: bool)
    requires
        a <= b <= s@.len(),
    ensures
        r == is_category(s@.subrange(a as int, b as int)),
{
    let ghost t = s@.subrange(a as int, b as int);
    let mut k = a;
    while k < b
        invariant
            a <= k <= b <= s@.len(),
            t == s@.subrange(a as int, b as int),
            forall|i: int| 0 <= i < k - a ==> (#[trigger] t[i] == '_' || is_upper(t[i])),
        decreases b - k,
    {
        let c = s[k];
        assert(t[k - a] == c);
        if c != '_' && !('A' <= c && c <= 'Z') {
            return false;
        }
        k = k + 1;
    }
    true
}

/// Decodes one log line into its record. Never fails: a line that does not
/// fit the grammar comes back as `Raw`.
pub fn decorate_log(log: &str) -> (r: LogRecord)
    ensures
        r@ == log_model(log@),
{
    let s = trim_white_of(&chars_of(log));
    let n = s.len();
    let raw = LogRecord::Raw { text: string_of(&s, 0, n) };
    assert(s@.subrange(0, n as int) =~= s@);
    let (a0, e0) = next_token(&s, 0);
    if a0 >= n {
        return raw;
    }
    let level = match level_at(&s, a0, e0) {
        Some(l) => l,
        None => return raw,
    };
    let (a1, e1) = next_token(&s, e0);
    if a1 >= n {
        return raw;
    }
    if !time_at(&s, a1, e1) {
        return LogRecord::Untimed { level, info: string_of(&s, a1, e1), rest: words_at(&s, e1) };
    }
    let time = string_of(&s, a1, e1);
    let (a2, e2) = next_token(&s, e1);
    if a2 >= n {
        return raw;
    }
    if count_in(&s, a2, e2, ':') != 1 {
        if category_at(&s, a2, e2) {
            return LogRecord::Tagged {
                level,
                time,
                category: string_of(&s, a2, e2),
                rest: words_at(&s, e2),
            };
        } else {
            return LogRecord::Plain { level, time, info: string_of(&s, a2, e2), rest: words_at(&s, e2) };
        }
    }
    let span = string_of(&s, a2, e2);
    let (a3, e3) = next_token(&s, e2);
    if a3 >= n {
        return raw;
    }
    if level == Level::Trace {
        let k = index_of_at(&s, '=', a3);
        if k >= e3 {
            return raw;
        }
        return LogRecord::Variable {
            level,
            time,
            span,
            name: string_of(&s, a3, k),
            value: string_of(&s, k + 1, e3),
        };
    }
    if category_at(&s, a3, e3) {
        LogRecord::SpanTagged { level, time, span, category: string_of(&s, a3, e3), rest: words_at(&s, e3) }
    } else {
        LogRecord::SpanPlain { level, time, span, info: string_of(&s, a3, e3), rest: words_at(&s, e3) }
    }
}

/// How a piece of a displayed line is emphasised.
#[derive(Clone, Copy, Debug, PartialEq, Eq, Structural)]
pub enum Style {
    Plain,
    /// Timestamps and spans.
    Dim,
    /// Categories.
    Category,
    /// A trace variable's name.
    Name,
    /// A trace variable's value.
    Value,
}

/// One piece of a displayed line.
#[derive(Clone, Debug, PartialEq, Eq)]
pub enum Piece {
    /// The level letter, in the level's own style.
    Level(Level),
    Text { text: String, style: Style },
    /// A single space.
    Space,
    /// The gap before a trace variable: a space, a tab, a space.
    Tab,
    /// The ':' between a trace variable's name and value.
    Colon,
}

pub enum PieceModel {
    Level(Level),
    Text(Seq<char>, Style),
    Space,
    Tab,
    Colon,
}

impl View for Piece {
    type V = PieceModel;

    open spec fn view(&self) -> PieceModel {
        match self {
            Piece::Level(l) => PieceModel::Level(*l),
            Piece::Text { text, style } => PieceModel::Text(text@, *style),
            Piece::Space => PieceModel::Space,
            Piece::Tab => PieceModel::Tab,
            Piece::Colon => PieceModel::Colon,
        }
    }
}

/// How a record is displayed: its parts in order, single spaces between
/// them, timestamps and spans dim, categories emphasised, and a trace
/// variable as `name:value` after a tab.
pub open spec fn layout(m: LogModel) -> Seq<PieceModel> {
    let sp = PieceModel::Space;
    match m {
        LogModel::Raw { text } => seq![PieceModel::Text(text, Style::Plain)],
        LogModel::Untimed { level, info, rest } => seq![
            PieceModel::Level(level),
            sp,
            PieceModel::Text(info, Style::Plain),
            sp,
            PieceModel::Text(rest, Style::Plain),
        ],
        LogModel::Tagged { level, time, category, rest } => seq![
            PieceModel::Level(level),
            sp,
            PieceModel::Text(time, Style::Dim),
            sp,
            PieceModel::Text(category, Style::Category),
            sp,
            PieceModel::Text(rest, Style::Plain),
        ],
        LogModel::Plain { level, time, info, rest } => seq![
            PieceModel::Level(level),
            sp,
            PieceModel::Text(time, Style::Dim),
            sp,
            PieceModel::Text(info, Style::Plain),
            sp,
            PieceModel::Text(rest, Style::Plain),
        ],
        LogModel::Variable { level, time, span, name, value } => seq![
            PieceModel::Level(level),
            sp,
            PieceModel::Text(time, Style::Dim),
            sp,
            PieceModel::Text(span, Style::Dim),
            PieceModel::Tab,
            PieceModel::Text(name, Style::Name),
            PieceModel::Colon,
            PieceModel::Text(value, Style::Value),
        ],
        LogModel::SpanTagged { level, time, span, category, rest } => seq![
            PieceModel::Level(level),
            sp,
            PieceModel::Text(time, Style::Dim),
            sp,
            PieceModel::Text(span, Style::Dim),
            sp,
            PieceModel::Text(category, Style::Category),
            sp,
            PieceModel::Text(rest, Style::Plain),
        ],
        LogModel::SpanPlain { level, time, span, info, rest } => seq![
            PieceModel::Level(level),
            sp,
            PieceModel::Text(time, Style::Dim),
            sp,
            PieceModel::Text(span, Style::Dim),
            sp,
            PieceModel::Text(info, Style::Plain),
            sp,
            PieceModel::Text(rest, Style::Plain),
        ],
    }
}

pub open spec fn piece_views(v: Seq<Piece>) -> Seq<PieceModel> {
    v.map_values(|p: Piece| p@)
}

fn text(s: &String, style: Style) -> (r: Piece)
    ensures
        r@ == PieceModel::Text(s@, style),
{
    Piece::Text { text: s.clone(), style }
}

/// The pieces in which `r` is displayed.
pub fn render(r: &LogRecord) -> (v: Vec<Piece>)
    ensures
        piece_views(v@) == layout(r@),
{
    let v = match r {
        LogRecord::Raw { text: t } => vec![text(t, Style::Plain)],
        LogRecord::Untimed { level, info, rest } => vec![
            Piece::Level(*level),
            Piece::Space,
            text(info, Style::Plain),
            Piece::Space,
            text(rest, Style::Plain),
        ],
        LogRecord::Tagged { level, time, category, rest } => vec![
            Piece::Level(*level),
            Piece::Space,
            text(time, Style::Dim),
            Piece::Space,
            text(category, Style::Category),
            Piece::Space,
            text(rest, Style::Plain),
        ],
        LogRecord::Plain { level, time, info, rest } => vec![
            Piece::Level(*level),
            Piece::Space,
            text(time, Style::Dim),
            Piece::Space,
            text(info, Style::Plain),
            Piece::Space,
            text(rest, Style::Plain),
        ],
        LogRecord::Variable { level, time, span, name, value } => vec![
            Piece::Level(*level),
            Piece::Space,
            text(time, Style::Dim),
            Piece::Space,
            text(span, Style::Dim),
            Piece::Tab,
            text(name, Style::Name),
            Piece::Colon,
            text(value, Style::Value),
        ],
        LogRecord::SpanTagged { level, time, span, category, rest } => vec![
            Piece::Level(*level),
            Piece::Space,
            text(time, Style::Dim),
            Piece::Space,
            text(span, Style::Dim),
            Piece::Space,
            text(category, Style::Category),
            Piece::Space,
            text(rest, Style::Plain),
        ],
        LogRecord::SpanPlain { level, time, span, info, rest } => vec![
            Piece::Level(*level),
            Piece::Space,
            text(time, Style::Dim),
            Piece::Space,
            text(span, Style::Dim),
            Piece::Space,
            text(info, Style::Plain),
            Piece::Space,
            text(rest, Style::Plain),
        ],
    };
    assert(piece_views(v@) =~= layout(r@));
    v
}

/// Decodes one log line and lays it out for display.
pub fn decode_and_render(line: &str) -> (v: Vec<Piece>)
    ensures
        piece_views(v@) == layout(log_model(line@)),
{
    render(&decorate_log(line))
}

} // verus!
