use ticar_link::control::{key_frames, ControlKey};
use ticar_link::discovery::{
    discover, discover_with, parse_registration, CommandDescriptor, CommandKind, Scanner, StopPolicy,
};
use ticar_link::dispatch::{invoke, Namespace};
use ticar_link::frame::{decode_frame, encode_frame, parse_value, ArgError, Axis, ControlFrame};
use ticar_link::log::{decode_and_render, decorate_log, Level, LogRecord, Piece, Style};

fn s(x: &str) -> String {
    x.to_string()
}

/// The float reading of a decimal argument, as the application computes it.
fn hundredths(t: &str) -> Option<i64> {
    t.parse::<f64>().ok().map(|x| (x * 100.0) as i64)
}

fn lines(v: &[&str]) -> Vec<String> {
    v.iter().map(|l| l.to_string()).collect()
}

#[test]
fn integer_argument_round_trips() {
    let b = encode_frame(3, "12", hundredths("12")).unwrap();
    assert_eq!(b, [0x7F, 3, 0, 12]);
    assert_eq!(decode_frame(b), Some(ControlFrame::Rpc { id: 3, value: 12 }));
}

#[test]
fn decimal_argument_is_scaled_and_truncated() {
    let b = encode_frame(9, "1.5", hundredths("1.5")).unwrap();
    assert_eq!(decode_frame(b), Some(ControlFrame::Rpc { id: 9, value: 150 }));
    let b = encode_frame(9, "-1.999", hundredths("-1.999")).unwrap();
    assert_eq!(decode_frame(b), Some(ControlFrame::Rpc { id: 9, value: -199 }));
    assert_eq!(b, [0x7F, 9, 0xFF, 0x39]);
}

#[test]
fn non_number_gives_no_frame() {
    assert_eq!(encode_frame(1, "abc", hundredths("abc")), Err(ArgError::NotANumber));
}

#[test]
fn argument_errors() {
    assert_eq!(parse_value("1.x", hundredths("1.x")), Err(ArgError::InvalidFloat));
    assert_eq!(parse_value(".", hundredths(".")), Err(ArgError::InvalidFloat));
    assert_eq!(parse_value("1-2", hundredths("1-2")), Err(ArgError::NotANumber));
    assert_eq!(parse_value("", hundredths("")), Err(ArgError::NotANumber));
    assert_eq!(parse_value("-", hundredths("-")), Err(ArgError::NotANumber));
    assert_eq!(parse_value("--5", hundredths("--5")), Err(ArgError::NotANumber));
    assert_eq!(parse_value("400.0", hundredths("400.0")), Err(ArgError::Overflow));
    assert_eq!(parse_value("40000", hundredths("40000")), Err(ArgError::Overflow));
    assert_eq!(parse_value("1.5", None), Err(ArgError::InvalidFloat));
    assert_eq!(parse_value("1.2.3", hundredths("1.2.3")), Err(ArgError::NotANumber));
    assert_eq!(parse_value("+5", hundredths("+5")), Err(ArgError::NotANumber));
    assert_eq!(parse_value("32768", hundredths("32768")), Err(ArgError::Overflow));
    assert_eq!(parse_value("99999999999", hundredths("99999999999")), Err(ArgError::Overflow));
    assert_eq!(parse_value("327.68", hundredths("327.68")), Err(ArgError::Overflow));
    assert_eq!(parse_value("-327.69", hundredths("-327.69")), Err(ArgError::Overflow));
    assert_eq!(parse_value("5000.0", hundredths("5000.0")), Err(ArgError::Overflow));
}

#[test]
fn argument_values() {
    assert_eq!(parse_value("-32768", hundredths("-32768")), Ok(-32768));
    assert_eq!(parse_value("32767", hundredths("32767")), Ok(32767));
    assert_eq!(parse_value("007", hundredths("007")), Ok(7));
    assert_eq!(parse_value("-327.68", hundredths("-327.68")), Ok(-32768));
    assert_eq!(parse_value("327.67", hundredths("327.67")), Ok(32767));
    assert_eq!(parse_value(".5", hundredths(".5")), Ok(50));
    assert_eq!(parse_value("2.", hundredths("2.")), Ok(200));
    assert_eq!(parse_value("+0.25", hundredths("+0.25")), Ok(25));
    assert_eq!(parse_value("-0.019", hundredths("-0.019")), Ok(-1));
    assert_eq!(parse_value("1.15", hundredths("1.15")), Ok(114));
    assert_eq!(parse_value("2.01", hundredths("2.01")), Ok(200));
    assert_eq!(parse_value("1.5e2", hundredths("1.5e2")), Ok(15000));
    assert_eq!(parse_value("12", Some(99)), Ok(12));
}

#[test]
fn frame_bytes_are_big_endian() {
    assert_eq!(encode_frame(200, "-32768", hundredths("-32768")), Ok([0x7F, 200, 0x80, 0x00]));
    assert_eq!(encode_frame(0, "258", hundredths("258")), Ok([0x7F, 0, 1, 2]));
    let m = ControlFrame::Motor { axis: Axis::Turn, value: -123 };
    assert_eq!(m.to_bytes(), [0xFF, 1, 0xFF, 0x85]);
    assert_eq!(decode_frame(m.to_bytes()), Some(m));
    assert_eq!(decode_frame([0xFF, 2, 0, 0]), None);
    assert_eq!(decode_frame([0x10, 0, 0, 0]), None);
}

#[test]
fn category_line() {
    assert_eq!(
        decorate_log("E 00:01:10 NET timeout"),
        LogRecord::Tagged { level: Level::Error, time: s("00:01:10"), category: s("NET"), rest: s("timeout") }
    );
}

#[test]
fn trace_variable_line() {
    assert_eq!(
        decorate_log("T 00:00:01 1:2 speed=42"),
        LogRecord::Variable {
            level: Level::Trace,
            time: s("00:00:01"),
            span: s("1:2"),
            name: s("speed"),
            value: s("42"),
        }
    );
}

#[test]
fn garbage_line_is_kept() {
    assert_eq!(decorate_log("garbage line"), LogRecord::Raw { text: s("garbage line") });
}

#[test]
fn other_log_shapes() {
    assert_eq!(
        decorate_log("I 0 RPC_REGISTER id=3 FN go"),
        LogRecord::Untimed { level: Level::Info, info: s("0"), rest: s("RPC_REGISTER id=3 FN go") }
    );
    assert_eq!(
        decorate_log("W 12:00:00 hello  big \t world \n"),
        LogRecord::Plain { level: Level::Warn, time: s("12:00:00"), info: s("hello"), rest: s("big world") }
    );
    assert_eq!(
        decorate_log("D 00:00:01 1:2 MOTOR_L stalled at 3"),
        LogRecord::SpanTagged {
            level: Level::Debug,
            time: s("00:00:01"),
            span: s("1:2"),
            category: s("MOTOR_L"),
            rest: s("stalled at 3"),
        }
    );
    assert_eq!(
        decorate_log("I 00:00:01 1:2 hello"),
        LogRecord::SpanPlain {
            level: Level::Info,
            time: s("00:00:01"),
            span: s("1:2"),
            info: s("hello"),
            rest: s(""),
        }
    );
    assert_eq!(decorate_log("T 00:00:01 1:2 nothing"), LogRecord::Raw { text: s("T 00:00:01 1:2 nothing") });
    assert_eq!(decorate_log("  E  "), LogRecord::Raw { text: s("E") });
    assert_eq!(decorate_log("E 00:01:10 1:2"), LogRecord::Raw { text: s("E 00:01:10 1:2") });
    assert_eq!(decorate_log(""), LogRecord::Raw { text: s("") });
    assert_eq!(
        decorate_log("W 00:01:10 START"),
        LogRecord::Tagged { level: Level::Warn, time: s("00:01:10"), category: s("START"), rest: s("") }
    );
}

#[test]
fn registration_keeps_description_spacing() {
    let d = parse_registration("I 00:00:00 RPC_REGISTER id=7 SET max  speed ").unwrap();
    assert_eq!(d, CommandDescriptor { id: 7, kind: CommandKind::Setter, description: s("max  speed") });
    let d = parse_registration("I 0 RPC_REGISTER id=255 GET pos").unwrap();
    assert_eq!((d.id, d.kind), (255, CommandKind::Getter));
}

#[test]
fn non_registrations() {
    assert_eq!(parse_registration("I 0 RPC_REGISTER id=256 FN go"), None);
    assert_eq!(parse_registration("I 0 RPC_REGISTER id=x FN go"), None);
    assert_eq!(parse_registration("I 0 RPC_REGISTER ident=3 FN go"), None);
    assert_eq!(parse_registration("I 0 RPC_REGISTER id=3 CALL go"), None);
    assert_eq!(parse_registration("E 0 RPC_REGISTER id=3 FN go"), None);
    assert_eq!(parse_registration("I 0 status ok"), None);
}

#[test]
fn discovery_stops_after_first_other_line() {
    let ls = lines(&["I 0 RPC_REGISTER id=3 FN go", "I 0 RPC_REGISTER id=4 GET pos", "I 0 status ok", "I 0 RPC_REGISTER id=5 FN late"]);
    let r = discover(&ls);
    assert_eq!(r.commands.len(), 2);
    assert_eq!(r.commands[0].id, 3);
    assert_eq!(r.commands[0].kind, CommandKind::Function);
    assert_eq!(r.commands[0].description, "go");
    assert_eq!(r.commands[1].id, 4);
    assert_eq!(r.commands[1].kind, CommandKind::Getter);
    assert_eq!(r.consumed, 3);
    assert_eq!(r.records.len(), 3);
    assert_eq!(r.records[2], decorate_log("I 0 status ok"));
}

#[test]
fn discovery_skips_startup_noise() {
    let ls = lines(&["boot", "E 00:00:00 X fail", "I 0 RPC_REGISTER id=1 SET a"]);
    let r = discover(&ls);
    assert_eq!(r.commands.len(), 1);
    assert_eq!(r.consumed, 3);
    assert_eq!(r.records[0], LogRecord::Raw { text: s("boot") });
    let r = discover(&lines(&["noise", "more"]));
    assert_eq!((r.commands.len(), r.consumed), (0, 2));
}

#[test]
fn scanner_steps() {
    let mut sc = Scanner::new();
    assert!(sc.feed("hello"));
    assert!(sc.feed("I 0 RPC_REGISTER id=2 FN x"));
    assert!(!sc.is_done());
    assert!(!sc.feed("I 0 RPC_REGISTER id=bad FN y"));
    assert!(sc.is_done());
    let c = sc.into_commands();
    assert_eq!(c, vec![CommandDescriptor { id: 2, kind: CommandKind::Function, description: s("x") }]);
}

#[test]
fn namespace_groups() {
    let cs = vec![
        CommandDescriptor { id: 1, kind: CommandKind::Function, description: s("go") },
        CommandDescriptor { id: 2, kind: CommandKind::Getter, description: s("pos") },
        CommandDescriptor { id: 3, kind: CommandKind::Function, description: s("stop") },
        CommandDescriptor { id: 4, kind: CommandKind::Setter, description: s("speed") },
    ];
    let ns = Namespace::build(&cs);
    assert_eq!(ns.functions, vec![cs[0].clone(), cs[2].clone()]);
    assert_eq!(ns.getters, vec![cs[1].clone()]);
    assert_eq!(ns.setters, vec![cs[3].clone()]);
}

#[test]
fn invoke_calls() {
    let c = invoke(CommandKind::Function, 5, &vec![], None).unwrap();
    assert_eq!((c.frame, c.settle), ([0x7F, 5, 0, 0], false));
    let c = invoke(CommandKind::Function, 5, &vec![s("2")], hundredths("2")).unwrap();
    assert_eq!(c.frame, [0x7F, 5, 0, 2]);
    let c = invoke(CommandKind::Getter, 6, &vec![s("junk")], None).unwrap();
    assert_eq!((c.frame, c.settle), ([0x7F, 6, 0, 0], true));
    assert_eq!(invoke(CommandKind::Setter, 7, &vec![], None), Err(ArgError::Missing));
    let c = invoke(CommandKind::Setter, 7, &vec![s("2.5"), s("ignored")], hundredths("2.5")).unwrap();
    assert_eq!((c.frame, c.settle), ([0x7F, 7, 0, 250], false));
    assert_eq!(invoke(CommandKind::Setter, 7, &vec![s("fast")], hundredths("fast")), Err(ArgError::NotANumber));
}

#[test]
fn steering_keys() {
    assert_eq!(key_frames(ControlKey::Char('a')), Some(vec![0xFF, 1, 0xFF, 0x85, 0xFF, 0, 0, 0]));
    assert_eq!(key_frames(ControlKey::ArrowUp), Some(vec![0xFF, 1, 0, 0, 0xFF, 0, 0, 200]));
    assert_eq!(key_frames(ControlKey::Char('S')), Some(vec![0xFF, 1, 0, 0, 0xFF, 0, 0xFF, 0x38]));
    assert_eq!(key_frames(ControlKey::Char('D')), Some(vec![0xFF, 1, 0, 123, 0xFF, 0, 0, 200]));
    assert_eq!(key_frames(ControlKey::Char(' ')), Some(vec![0xFF, 0, 0, 0, 0xFF, 1, 0, 0]));
    assert_eq!(key_frames(ControlKey::Char('q')), None);
    assert_eq!(key_frames(ControlKey::Other), None);
}

#[test]
fn category_line_layout() {
    assert_eq!(
        decode_and_render("E 00:01:10 NET timeout"),
        vec![
            Piece::Level(Level::Error),
            Piece::Space,
            Piece::Text { text: s("00:01:10"), style: Style::Dim },
            Piece::Space,
            Piece::Text { text: s("NET"), style: Style::Category },
            Piece::Space,
            Piece::Text { text: s("timeout"), style: Style::Plain },
        ]
    );
}

#[test]
fn trace_variable_layout() {
    assert_eq!(
        decode_and_render("T 00:00:01 1:2 speed=42"),
        vec![
            Piece::Level(Level::Trace),
            Piece::Space,
            Piece::Text { text: s("00:00:01"), style: Style::Dim },
            Piece::Space,
            Piece::Text { text: s("1:2"), style: Style::Dim },
            Piece::Tab,
            Piece::Text { text: s("speed"), style: Style::Name },
            Piece::Colon,
            Piece::Text { text: s("42"), style: Style::Value },
        ]
    );
    assert_eq!(
        decode_and_render("garbage line"),
        vec![Piece::Text { text: s("garbage line"), style: Style::Plain }]
    );
}

#[test]
fn tolerant_policy_reads_every_line() {
    let ls = lines(&["I 0 RPC_REGISTER id=3 FN go", "I 0 status ok", "I 0 RPC_REGISTER id=5 SET late"]);
    let r = discover_with(&ls, StopPolicy::Never);
    assert_eq!(r.consumed, 3);
    assert_eq!(r.commands.len(), 2);
    assert_eq!((r.commands[1].id, r.commands[1].kind), (5, CommandKind::Setter));
    let mut sc = Scanner::with_policy(StopPolicy::Never);
    assert!(sc.feed("I 0 RPC_REGISTER id=1 GET a"));
    assert!(sc.feed("noise"));
    assert!(!sc.is_done());
}

#[test]
fn announcements_alone_are_read_whole() {
    let ls = lines(&["I 0 RPC_REGISTER id=1 FN a", "I 0 RPC_REGISTER id=2 GET b c", "I 9 RPC_REGISTER id=3 SET d"]);
    let r = discover(&ls);
    assert_eq!(r.consumed, 3);
    let got: Vec<(u8, CommandKind, String)> = r.commands.iter().map(|d| (d.id, d.kind, d.description.clone())).collect();
    assert_eq!(
        got,
        vec![(1, CommandKind::Function, s("a")), (2, CommandKind::Getter, s("b c")), (3, CommandKind::Setter, s("d"))]
    );
}

#[test]
fn unicode_whitespace_is_trimmed() {
    assert_eq!(decorate_log("x\u{0B}"), LogRecord::Raw { text: s("x") });
    assert_eq!(decorate_log("\u{A0}\u{3000} y z \u{2028}"), LogRecord::Raw { text: s("y z") });
    assert_eq!(
        decorate_log("\u{A0}E 00:01:10 NET timeout"),
        LogRecord::Tagged { level: Level::Error, time: s("00:01:10"), category: s("NET"), rest: s("timeout") }
    );
}

#[test]
fn message_tokens_are_joined_by_single_spaces() {
    assert_eq!(
        decorate_log("E  00:01:10 NET a  b"),
        LogRecord::Tagged { level: Level::Error, time: s("00:01:10"), category: s("NET"), rest: s("a b") }
    );
    assert_eq!(
        decorate_log("I 0 RPC_REGISTER  id=3\tFN   go"),
        LogRecord::Untimed { level: Level::Info, info: s("0"), rest: s("RPC_REGISTER id=3 FN go") }
    );
    assert_eq!(decorate_log("  E  \t "), LogRecord::Raw { text: s("E") });
    assert_eq!(decorate_log("E a\u{0B}b  c"), LogRecord::Untimed { level: Level::Error, info: s("a\u{0B}b"), rest: s("c") });
}
