//! The operator's command namespace, built once from the discovered items,
//! and what each typed call sends to the device.
use vstd::prelude::*;
use crate::discovery::{descriptor_views, CommandDescriptor, CommandKind};
use crate::frame::{argument_value, frame_bytes, parse_value, ArgError, ControlFrame};

verus! {

/// The discovered items in three groups, one per kind, each in the order in
/// which the items were announced.
pub struct Namespace {
    pub functions: Vec<CommandDescriptor>,
    pub getters: Vec<CommandDescriptor>,
    pub setters: Vec<CommandDescriptor>,
}

/// The items of `s` of kind `k`, in order.
pub open spec fn group(s: Seq<(u8, CommandKind, Seq<char>)>, k: CommandKind) -> Seq<
    (u8, CommandKind, Seq<char>),
>
    decreases s.len(),
{
    if s.len() == 0 {
        Seq::empty()
    } else if s.last().1 == k {
        group(s.drop_last(), k).push(s.last())
    } else {
        group(s.drop_last(), k)
    }
}

impl Namespace {
    /// Sorts the discovered items into their groups.
    pub fn build(commands: &Vec<CommandDescriptor>) -> (r: Namespace)
        ensures
            descriptor_views(r.functions@) == group(descriptor_views(commands@), CommandKind::Function),
            descriptor_views(r.getters@) == group(descriptor_views(commands@), CommandKind::Getter),
            descriptor_views(r.setters@) == group(descriptor_views(commands@), CommandKind::Setter),
    {
        let ghost all = descriptor_views(commands@);
        let mut functions: Vec<CommandDescriptor> = Vec::new();
        let mut getters: Vec<CommandDescriptor> = Vec::new();
        let mut setters: Vec<CommandDescriptor> = Vec::new();
        let mut i: usize = 0;
        while i < commands.len()
            invariant
                i <= commands@.len(),
                all == descriptor_views(commands@),
                descriptor_views(functions@) == group(all.subrange(0, i as int), CommandKind::Function),
                descriptor_views(getters@) == group(all.subrange(0, i as int), CommandKind::Getter),
                descriptor_views(setters@) == group(all.subrange(0, i as int), CommandKind::Setter),
            decreases commands@.len() - i,
        {
            let ghost pre = all.subrange(0, i as int);
            let ghost next = all.subrange(0, i + 1);
            assert(next.drop_last() =~= pre);
            assert(next.last() == (commands@[i as int].id, commands@[i as int].kind, commands@[i as int].description@));
            let id = commands[i].id;
            let kind = commands[i].kind;
            let item = CommandDescriptor { id, kind, description: copy_text(&commands[i].description) };
            assert(item@ == next.last());
            match kind {
                CommandKind::Function => {
                    functions.push(item);
                    assert(descriptor_views(functions@) =~= group(pre, CommandKind::Function).push(next.last()));
                },
                CommandKind::Getter => {
                    getters.push(item);
                    assert(descriptor_views(getters@) =~= group(pre, CommandKind::Getter).push(next.last()));
                },
                CommandKind::Setter => {
                    setters.push(item);
                    assert(descriptor_views(setters@) =~= group(pre, CommandKind::Setter).push(next.last()));
                },
            }
            i = i + 1;
        }
        assert(all.subrange(0, commands@.len() as int) =~= all);
        Namespace { functions, getters, setters }
    }
}

fn copy_text(s: &String) -> (r: String)
    ensures
        r@ == s@,
{
    s.clone()
}

/// What one call of a remote item sends.
#[derive(Clone, Copy, Debug, PartialEq, Eq)]
pub struct Call {
    /// The frame to write to the device.
    pub frame: [u8; 4],
    /// Whether to wait for the device's answer to show in the log before
    /// the next prompt.
    pub settle: bool,
}

/// The frame value that a call of an item of kind `k` with arguments
/// `args` sends, or why the call is refused. A function takes an optional
/// argument (0 without one), a getter none, a setter exactly one.
pub open spec fn call_value(k: CommandKind, args: Seq<Seq<char>>, hundredths: Option<i64>) -> Result<
    i16,
    ArgError,
> {
    match k {
        CommandKind::Getter => Ok(0),
        CommandKind::Function => if args.len() == 0 {
            Ok(0)
        } else {
            argument_value(args[0], hundredths)
        },
        CommandKind::Setter => if args.len() == 0 {
            Err(ArgError::Missing)
        } else {
            argument_value(args[0], hundredths)
        },
    }
}

/// The call of item `id`, of kind `kind`, with the typed arguments `args`
/// (only the first is read; `hundredths` is its float reading, as for
/// `parse_value`). On an error no frame is made and the session goes on.
pub fn invoke(kind: CommandKind, id: u8, args: &Vec<String>, hundredths: Option<i64>) -> (r: Result<
    Call,
    ArgError,
>)
    ensures
        match call_value(kind, args@.map_values(|s: String| s@), hundredths) {
            Ok(v) => r matches Ok(c) && c.frame@ == frame_bytes(ControlFrame::Rpc { id, value: v })
                && c.settle == (kind == CommandKind::Getter),
            Err(e) => r == Err::<Call, ArgError>(e),
        },
{
    let ghost views = args@.map_values(|s: String| s@);
    let value = match kind {
        CommandKind::Getter => 0,
        _ => {
            if args.len() == 0 {
                match kind {
                    CommandKind::Setter => return Err(ArgError::Missing),
                    _ => 0,
                }
            } else {
                assert(views[0] == args@[0]@);
                match parse_value(args[0].as_str(), hundredths) {
                    Ok(v) => v,
                    Err(e) => return Err(e),
                }
            }
        },
    };
    let frame = ControlFrame::Rpc { id, value }.to_bytes();
    Ok(Call { frame, settle: kind == CommandKind::Getter })
}

} // verus!
