//! The game-script command decoder: variable-length records of commands,
//! where conditional commands carry nested command lists of their own.

use vstd::prelude::*;

use crate::bytes::{be16, take_u16};
use crate::error::MhkError;

verus! {

/// An input or lifecycle event a card or hotspot script can handle.
#[derive(Debug, PartialEq, Eq, Hash, Clone, Copy, Structural)]
pub enum Event {
    MouseDown,
    MouseStillDown,
    MouseUp,
    MouseEnter,
    MouseWithin,
    MouseLeave,
    LoadCard,
    CloseCard,
    OpenCard,
    DisplayUpdate,
}

/// One sound of an inline sound-list command.
#[derive(Debug, PartialEq, Eq, Clone, Copy, Structural)]
pub struct InlineSlst {
    pub id: u16,
    pub volume: u16,
    pub balance: u16,
    pub u2: u16,
}

/// Which edge a transition sweeps from.
#[derive(Debug, PartialEq, Eq, Clone, Copy, Structural)]
pub enum TransitionDirection {
    Left,
    Right,
    Top,
    Bottom,
}

/// How a card transition is drawn.
#[derive(Debug, PartialEq, Eq, Clone, Copy, Structural)]
pub enum TransitionCode {
    Direction { direction: TransitionDirection, new_move: bool, old_move: bool },
    Blend,
}

/// One decoded script command. Unrecognized but structurally harmless
/// opcodes are preserved as `Unknown` with their raw arguments.
#[derive(Debug, PartialEq, Eq)]
pub enum Command {
    DrawBmp {
        tbmp_id: u16,
        left: u16,
        top: u16,
        right: u16,
        bottom: u16,
        u0: u16,
        u1: u16,
        u2: u16,
        u3: u16,
    },
    GotoCard { id: u16 },
    ActivateInlineSlst {
        sounds: Vec<InlineSlst>,
        fade_flags: u16,
        looping: u16,
        volume: u16,
        u0: u16,
        u1: u16,
    },
    PlayWav { id: u16, volume: u16, u1: u16 },
    SetVariable { var: u16, value: u16 },
    Conditional { var: u16, branches: Vec<(u16, Vec<Command>)> },
    EnableHotspot { hotspot_id: u16 },
    DisableHotspot { hotspot_id: u16 },
    SetCursor { cursor: u16 },
    Pause { ms: u16, u0: u16 },
    Call { cmd: u16, args: Vec<u16> },
    Transition { code: TransitionCode, rect: Option<(u16, u16, u16, u16)> },
    ReloadCard,
    DisableScreenUpdate,
    EnableScreenUpdate,
    IncrementVariable { var: u16, value: u16 },
    GotoStack { stack_name: u16, code: u32 },
    PlayForegroundMovie { code: u16 },
    PlayBackgroundMovie { code: u16 },
    ActivatePlst { record: u16 },
    ActivateSlst { record: u16 },
    ActivateBlst { record: u16 },
    ActivateFlst { record: u16 },
    ZipMode,
    ActivateMlst { record: u16, u0: u16 },
    Unknown { cmd: u16, args: Vec<u16> },
}

/// Decodes one command from its opcode and argument list, for every
/// opcode but the conditional: returns exactly the command that
/// `command_model_of` assigns, and rejects exactly the pairs it rejects.
fn decode_plain(cmd: u16, args: Vec<u16>) -> (r: Result<Command, MhkError>)
    requires
        args@.len() <= 0xffff,
        !(cmd == 8 && args@.len() == 2),
    ensures
        match r {
            Ok(c) => command_model_of(cmd, args@) matches Some(m) && view_command(c) == m,
            Err(e) => command_model_of(cmd, args@) is None && e matches MhkError::InvalidFormat(
                _,
            ),
        },
{
    if cmd == 1 && args.len() == 9 {
        Ok(Command::DrawBmp {
            tbmp_id: args[0],
            left: args[1],
            top: args[2],
            right: args[3],
            bottom: args[4],
            u0: args[5],
            u1: args[6],
            u2: args[7],
            u3: args[8],
        })
    } else if cmd == 2 && args.len() == 1 {
        Ok(Command::GotoCard { id: args[0] })
    } else if cmd == 3 {
        // inline sound list: a count, the ids, five fixed fields, then
        // per-sound volume, balance and extra columns
        if args.len() < 1 {
            return Err(MhkError::InvalidFormat("bad inline SLST record"));
        }
        let n = args[0] as usize;
        if n > 16383 || args.len() != 6 + 4 * n {
            return Err(MhkError::InvalidFormat("bad inline SLST record"));
        }
        let ghost sgoal = Seq::new(
            n as nat,
            |i: int|
                InlineSlst {
                    id: args@[1 + i],
                    volume: args@[6 + n + i],
                    balance: args@[6 + 2 * n + i],
                    u2: args@[6 + 3 * n + i],
                },
        );
        let mut sounds: Vec<InlineSlst> = Vec::new();
        let mut si: usize = 0;
        while si < n
            invariant
                si <= n,
                n <= 16383,
                args@.len() == 6 + 4 * n,
                sgoal == Seq::new(
                    n as nat,
                    |i: int|
                        InlineSlst {
                            id: args@[1 + i],
                            volume: args@[6 + n + i],
                            balance: args@[6 + 2 * n + i],
                            u2: args@[6 + 3 * n + i],
                        },
                ),
                sounds@.len() == si,
                forall|k: int| 0 <= k < si ==> sounds@[k] == sgoal[k],
            decreases n - si,
        {
            sounds.push(
                InlineSlst {
                    id: args[1 + si],
                    volume: args[6 + n + si],
                    balance: args[6 + 2 * n + si],
                    u2: args[6 + 3 * n + si],
                },
            );
            si = si + 1;
        }
        proof {
            assert(sounds@ =~= sgoal);
        }
        Ok(Command::ActivateInlineSlst {
            sounds,
            fade_flags: args[1 + n],
            looping: args[2 + n],
            volume: args[3 + n],
            u0: args[4 + n],
            u1: args[5 + n],
        })
    } else if cmd == 4 && args.len() == 3 {
        Ok(Command::PlayWav { id: args[0], volume: args[1], u1: args[2] })
    } else if cmd == 7 && args.len() == 2 {
        Ok(Command::SetVariable { var: args[0], value: args[1] })
    } else if cmd == 9 && args.len() == 1 {
        Ok(Command::EnableHotspot { hotspot_id: args[0] })
    } else if cmd == 10 && args.len() == 1 {
        Ok(Command::DisableHotspot { hotspot_id: args[0] })
    } else if cmd == 12 && args.len() == 1 {
        Ok(Command::Unknown { cmd, args })
    } else if cmd == 13 && args.len() == 1 {
        Ok(Command::SetCursor { cursor: args[0] })
    } else if cmd == 14 && args.len() == 2 {
        Ok(Command::Pause { ms: args[0], u0: args[1] })
    } else if cmd == 17 {
        // call: the callee and an inline count of its arguments
        if args.len() < 2 || args.len() - 2 < args[1] as usize {
            return Err(MhkError::InvalidFormat("bad call"));
        }
        let callee = args[0];
        let nargs = args[1] as usize;
        let mut cargs: Vec<u16> = Vec::new();
        let mut k2: usize = 0;
        while k2 < nargs
            invariant
                k2 <= nargs,
                nargs <= 0xffff,
                args@.len() >= 2 + nargs,
                cargs@ == args@.subrange(2, 2 + k2 as int),
            decreases nargs - k2,
        {
            let a = args[2 + k2];
            cargs.push(a);
            proof {
                assert(args@.subrange(2, 2 + (k2 + 1) as int) =~= args@.subrange(
                    2,
                    2 + k2 as int,
                ).push(a));
            }
            k2 = k2 + 1;
        }
        Ok(Command::Call { cmd: callee, args: cargs })
    } else if cmd == 18 {
        if args.len() != 1 && args.len() != 5 {
            return Err(MhkError::InvalidFormat("bad transition"));
        }
        let rect: Option<(u16, u16, u16, u16)> = if args.len() == 5 {
            Some((args[1], args[2], args[3], args[4]))
        } else {
            None
        };
        let codenum = args[0];
        let code = if codenum >= 16 {
            TransitionCode::Blend
        } else {
            let direction = if codenum & 0x3 == 0 {
                TransitionDirection::Left
            } else if codenum & 0x3 == 1 {
                TransitionDirection::Right
            } else if codenum & 0x3 == 2 {
                TransitionDirection::Top
            } else {
                TransitionDirection::Bottom
            };
            TransitionCode::Direction {
                direction,
                new_move: (codenum & 0x4) > 0,
                old_move: (codenum & 0x8) > 0,
            }
        };
        Ok(Command::Transition { code, rect })
    } else if cmd == 19 && args.len() == 0 {
        Ok(Command::ReloadCard)
    } else if cmd == 20 && args.len() == 0 {
        Ok(Command::DisableScreenUpdate)
    } else if cmd == 21 && args.len() == 0 {
        Ok(Command::EnableScreenUpdate)
    } else if cmd == 24 && args.len() == 2 {
        Ok(Command::IncrementVariable { var: args[0], value: args[1] })
    } else if cmd == 27 && args.len() == 3 {
        Ok(Command::GotoStack {
            stack_name: args[0],
            code: (args[1] as u32) * 0x10000 + (args[2] as u32),
        })
    } else if cmd == 28 && args.len() == 1 {
        Ok(Command::Unknown { cmd, args })
    } else if cmd == 29 && args.len() == 0 {
        Ok(Command::Unknown { cmd, args })
    } else if cmd == 31 && args.len() == 1 {
        Ok(Command::Unknown { cmd, args })
    } else if cmd == 32 && args.len() == 1 {
        Ok(Command::PlayForegroundMovie { code: args[0] })
    } else if cmd == 33 && args.len() == 1 {
        Ok(Command::PlayBackgroundMovie { code: args[0] })
    } else if cmd == 34 && args.len() == 1 {
        Ok(Command::Unknown { cmd, args })
    } else if cmd == 36 && args.len() == 0 {
        Ok(Command::Unknown { cmd, args })
    } else if cmd == 37 && args.len() == 0 {
        Ok(Command::Unknown { cmd, args })
    } else if cmd == 38 && args.len() == 5 {
        Ok(Command::Unknown { cmd, args })
    } else if cmd == 39 && args.len() == 1 {
        Ok(Command::ActivatePlst { record: args[0] })
    } else if cmd == 40 && args.len() == 1 {
        Ok(Command::ActivateSlst { record: args[0] })
    } else if cmd == 41 && args.len() == 1 {
        Ok(Command::Unknown { cmd, args })
    } else if cmd == 43 && args.len() == 1 {
        Ok(Command::ActivateBlst { record: args[0] })
    } else if cmd == 44 && args.len() == 1 {
        Ok(Command::ActivateFlst { record: args[0] })
    } else if cmd == 45 && args.len() == 0 {
        Ok(Command::ZipMode)
    } else if cmd == 46 && args.len() == 2 {
        Ok(Command::ActivateMlst { record: args[0], u0: args[1] })
    } else {
        Err(MhkError::InvalidFormat("unknown script command"))
    }
}

/// The spec-level shape of one decoded command, with sequences where the
/// executable command holds vectors.
pub enum CommandModel {
    DrawBmp {
        tbmp_id: u16,
        left: u16,
        top: u16,
        right: u16,
        bottom: u16,
        u0: u16,
        u1: u16,
        u2: u16,
        u3: u16,
    },
    GotoCard { id: u16 },
    ActivateInlineSlst {
        sounds: Seq<InlineSlst>,
        fade_flags: u16,
        looping: u16,
        volume: u16,
        u0: u16,
        u1: u16,
    },
    PlayWav { id: u16, volume: u16, u1: u16 },
    SetVariable { var: u16, value: u16 },
    Conditional { var: u16, branches: Seq<(u16, Seq<CommandModel>)> },
    EnableHotspot { hotspot_id: u16 },
    DisableHotspot { hotspot_id: u16 },
    SetCursor { cursor: u16 },
    Pause { ms: u16, u0: u16 },
    Call { cmd: u16, args: Seq<u16> },
    Transition { code: TransitionCode, rect: Option<(u16, u16, u16, u16)> },
    ReloadCard,
    DisableScreenUpdate,
    EnableScreenUpdate,
    IncrementVariable { var: u16, value: u16 },
    GotoStack { stack_name: u16, code: u32 },
    PlayForegroundMovie { code: u16 },
    PlayBackgroundMovie { code: u16 },
    ActivatePlst { record: u16 },
    ActivateSlst { record: u16 },
    ActivateBlst { record: u16 },
    ActivateFlst { record: u16 },
    ZipMode,
    ActivateMlst { record: u16, u0: u16 },
    Unknown { cmd: u16, args: Seq<u16> },
}

/// The spec-level shape of one decoded command.
pub open spec fn view_command(c: Command) -> CommandModel
    decreases c, 0int,
{
    match c {
        Command::DrawBmp { tbmp_id, left, top, right, bottom, u0, u1, u2, u3 } => CommandModel::DrawBmp {
            tbmp_id,
            left,
            top,
            right,
            bottom,
            u0,
            u1,
            u2,
            u3,
        },
        Command::GotoCard { id } => CommandModel::GotoCard { id },
        Command::ActivateInlineSlst { sounds, fade_flags, looping, volume, u0, u1 } => CommandModel::ActivateInlineSlst {
            sounds: sounds@,
            fade_flags,
            looping,
            volume,
            u0,
            u1,
        },
        Command::PlayWav { id, volume, u1 } => CommandModel::PlayWav { id, volume, u1 },
        Command::SetVariable { var, value } => CommandModel::SetVariable { var, value },
        Command::Conditional { var, branches } => CommandModel::Conditional {
            var,
            branches: view_branches_vec(branches),
        },
        Command::EnableHotspot { hotspot_id } => CommandModel::EnableHotspot { hotspot_id },
        Command::DisableHotspot { hotspot_id } => CommandModel::DisableHotspot { hotspot_id },
        Command::SetCursor { cursor } => CommandModel::SetCursor { cursor },
        Command::Pause { ms, u0 } => CommandModel::Pause { ms, u0 },
        Command::Call { cmd, args } => CommandModel::Call { cmd, args: args@ },
        Command::Transition { code, rect } => CommandModel::Transition { code, rect },
        Command::ReloadCard => CommandModel::ReloadCard,
        Command::DisableScreenUpdate => CommandModel::DisableScreenUpdate,
        Command::EnableScreenUpdate => CommandModel::EnableScreenUpdate,
        Command::IncrementVariable { var, value } => CommandModel::IncrementVariable { var, value },
        Command::GotoStack { stack_name, code } => CommandModel::GotoStack { stack_name, code },
        Command::PlayForegroundMovie { code } => CommandModel::PlayForegroundMovie { code },
        Command::PlayBackgroundMovie { code } => CommandModel::PlayBackgroundMovie { code },
        Command::ActivatePlst { record } => CommandModel::ActivatePlst { record },
        Command::ActivateSlst { record } => CommandModel::ActivateSlst { record },
        Command::ActivateBlst { record } => CommandModel::ActivateBlst { record },
        Command::ActivateFlst { record } => CommandModel::ActivateFlst { record },
        Command::ZipMode => CommandModel::ZipMode,
        Command::ActivateMlst { record, u0 } => CommandModel::ActivateMlst { record, u0 },
        Command::Unknown { cmd, args } => CommandModel::Unknown { cmd, args: args@ },
    }
}

/// The spec-level shape of a conditional's branch vector.
pub open spec fn view_branches_vec(bv: Vec<(u16, Vec<Command>)>) -> Seq<(u16, Seq<CommandModel>)>
    decreases bv, 1int,
{
    view_branches(bv@)
}

/// The spec-level shape of a branch list.
pub open spec fn view_branches(br: Seq<(u16, Vec<Command>)>) -> Seq<(u16, Seq<CommandModel>)>
    decreases br, 2int,
{
    if br.len() == 0 {
        Seq::empty()
    } else {
        seq![view_branch(br[0])] + view_branches(br.drop_first())
    }
}

/// The spec-level shape of one branch.
pub open spec fn view_branch(b: (u16, Vec<Command>)) -> (u16, Seq<CommandModel>)
    decreases b, 3int,
{
    (b.0, view_commands_vec(b.1))
}

/// The spec-level shape of a command vector.
pub open spec fn view_commands_vec(cv: Vec<Command>) -> Seq<CommandModel>
    decreases cv, 4int,
{
    view_commands(cv@)
}

/// The spec-level shape of a command list.
pub open spec fn view_commands(v: Seq<Command>) -> Seq<CommandModel>
    decreases v, 5int,
{
    if v.len() == 0 {
        Seq::empty()
    } else {
        seq![view_command(v[0])] + view_commands(v.drop_first())
    }
}

/// Appending a command to a list appends its shape.
pub proof fn lemma_view_commands_push(v: Seq<Command>, c: Command)
    ensures
        view_commands(v.push(c)) == view_commands(v).push(view_command(c)),
    decreases v.len(),
{
    if v.len() == 0 {
        assert(v.push(c).drop_first() =~= v);
        assert(view_commands(v.push(c)) =~= view_commands(v).push(view_command(c)));
    } else {
        assert(v.push(c).drop_first() =~= v.drop_first().push(c));
        lemma_view_commands_push(v.drop_first(), c);
        assert(view_commands(v.push(c)) =~= view_commands(v).push(view_command(c)));
    }
}

/// Appending a branch to a branch list appends its shape.
pub proof fn lemma_view_branches_push(br: Seq<(u16, Vec<Command>)>, b: (u16, Vec<Command>))
    ensures
        view_branches(br.push(b)) == view_branches(br).push(view_branch(b)),
    decreases br.len(),
{
    if br.len() == 0 {
        assert(br.push(b).drop_first() =~= br);
        assert(view_branches(br.push(b)) =~= view_branches(br).push(view_branch(b)));
    } else {
        assert(br.push(b).drop_first() =~= br.drop_first().push(b));
        lemma_view_branches_push(br.drop_first(), b);
        assert(view_branches(br.push(b)) =~= view_branches(br).push(view_branch(b)));
    }
}


/// The event selected by one wire code; codes other than 0 through 7, 9
/// and 10 are unknown.
pub open spec fn event_model_of(code: u16) -> Option<Event> {
    if code == 0 {
        Some(Event::MouseDown)
    } else if code == 1 {
        Some(Event::MouseStillDown)
    } else if code == 2 {
        Some(Event::MouseUp)
    } else if code == 3 {
        Some(Event::MouseEnter)
    } else if code == 4 {
        Some(Event::MouseWithin)
    } else if code == 5 {
        Some(Event::MouseLeave)
    } else if code == 6 {
        Some(Event::LoadCard)
    } else if code == 7 {
        Some(Event::CloseCard)
    } else if code == 9 {
        Some(Event::OpenCard)
    } else if code == 10 {
        Some(Event::DisplayUpdate)
    } else {
        None
    }
}

/// The command assembled from one opcode and its argument list, for every
/// opcode but the conditional; `None` exactly when no known opcode and
/// arity pattern matches.
pub open spec fn command_model_of(cmd: u16, args: Seq<u16>) -> Option<CommandModel> {
    if cmd == 1 && args.len() == 9 {
        Some(
            CommandModel::DrawBmp {
                tbmp_id: args[0],
                left: args[1],
                top: args[2],
                right: args[3],
                bottom: args[4],
                u0: args[5],
                u1: args[6],
                u2: args[7],
                u3: args[8],
            },
        )
    } else if cmd == 2 && args.len() == 1 {
        Some(CommandModel::GotoCard { id: args[0] })
    } else if cmd == 3 {
        if args.len() >= 1 && args.len() == 6 + 4 * (args[0] as int) {
            let n = args[0] as int;
            Some(
                CommandModel::ActivateInlineSlst {
                    sounds: Seq::new(
                        n as nat,
                        |i: int|
                            InlineSlst {
                                id: args[1 + i],
                                volume: args[6 + n + i],
                                balance: args[6 + 2 * n + i],
                                u2: args[6 + 3 * n + i],
                            },
                    ),
                    fade_flags: args[1 + n],
                    looping: args[2 + n],
                    volume: args[3 + n],
                    u0: args[4 + n],
                    u1: args[5 + n],
                },
            )
        } else {
            None
        }
    } else if cmd == 4 && args.len() == 3 {
        Some(CommandModel::PlayWav { id: args[0], volume: args[1], u1: args[2] })
    } else if cmd == 7 && args.len() == 2 {
        Some(CommandModel::SetVariable { var: args[0], value: args[1] })
    } else if cmd == 9 && args.len() == 1 {
        Some(CommandModel::EnableHotspot { hotspot_id: args[0] })
    } else if cmd == 10 && args.len() == 1 {
        Some(CommandModel::DisableHotspot { hotspot_id: args[0] })
    } else if cmd == 12 && args.len() == 1 {
        Some(CommandModel::Unknown { cmd, args })
    } else if cmd == 13 && args.len() == 1 {
        Some(CommandModel::SetCursor { cursor: args[0] })
    } else if cmd == 14 && args.len() == 2 {
        Some(CommandModel::Pause { ms: args[0], u0: args[1] })
    } else if cmd == 17 {
        if args.len() >= 2 && args.len() >= 2 + args[1] as int {
            Some(
                CommandModel::Call {
                    cmd: args[0],
                    args: args.subrange(2, 2 + args[1] as int),
                },
            )
        } else {
            None
        }
    } else if cmd == 18 {
        if args.len() == 1 || args.len() == 5 {
            let rect: Option<(u16, u16, u16, u16)> = if args.len() == 5 {
                Some((args[1], args[2], args[3], args[4]))
            } else {
                None
            };
            let codenum = args[0];
            let code = if codenum >= 16 {
                TransitionCode::Blend
            } else {
                TransitionCode::Direction {
                    direction: if codenum & 0x3 == 0 {
                        TransitionDirection::Left
                    } else if codenum & 0x3 == 1 {
                        TransitionDirection::Right
                    } else if codenum & 0x3 == 2 {
                        TransitionDirection::Top
                    } else {
                        TransitionDirection::Bottom
                    },
                    new_move: (codenum & 0x4) > 0,
                    old_move: (codenum & 0x8) > 0,
                }
            };
            Some(CommandModel::Transition { code, rect })
        } else {
            None
        }
    } else if cmd == 19 && args.len() == 0 {
        Some(CommandModel::ReloadCard)
    } else if cmd == 20 && args.len() == 0 {
        Some(CommandModel::DisableScreenUpdate)
    } else if cmd == 21 && args.len() == 0 {
        Some(CommandModel::EnableScreenUpdate)
    } else if cmd == 24 && args.len() == 2 {
        Some(CommandModel::IncrementVariable { var: args[0], value: args[1] })
    } else if cmd == 27 && args.len() == 3 {
        Some(
            CommandModel::GotoStack {
                stack_name: args[0],
                code: (args[1] as int * 0x10000 + args[2] as int) as u32,
            },
        )
    } else if cmd == 28 && args.len() == 1 {
        Some(CommandModel::Unknown { cmd, args })
    } else if cmd == 29 && args.len() == 0 {
        Some(CommandModel::Unknown { cmd, args })
    } else if cmd == 31 && args.len() == 1 {
        Some(CommandModel::Unknown { cmd, args })
    } else if cmd == 32 && args.len() == 1 {
        Some(CommandModel::PlayForegroundMovie { code: args[0] })
    } else if cmd == 33 && args.len() == 1 {
        Some(CommandModel::PlayBackgroundMovie { code: args[0] })
    } else if cmd == 34 && args.len() == 1 {
        Some(CommandModel::Unknown { cmd, args })
    } else if cmd == 36 && args.len() == 0 {
        Some(CommandModel::Unknown { cmd, args })
    } else if cmd == 37 && args.len() == 0 {
        Some(CommandModel::Unknown { cmd, args })
    } else if cmd == 38 && args.len() == 5 {
        Some(CommandModel::Unknown { cmd, args })
    } else if cmd == 39 && args.len() == 1 {
        Some(CommandModel::ActivatePlst { record: args[0] })
    } else if cmd == 40 && args.len() == 1 {
        Some(CommandModel::ActivateSlst { record: args[0] })
    } else if cmd == 41 && args.len() == 1 {
        Some(CommandModel::Unknown { cmd, args })
    } else if cmd == 43 && args.len() == 1 {
        Some(CommandModel::ActivateBlst { record: args[0] })
    } else if cmd == 44 && args.len() == 1 {
        Some(CommandModel::ActivateFlst { record: args[0] })
    } else if cmd == 45 && args.len() == 0 {
        Some(CommandModel::ZipMode)
    } else if cmd == 46 && args.len() == 2 {
        Some(CommandModel::ActivateMlst { record: args[0], u0: args[1] })
    } else {
        None
    }
}

/// The meaning of a count-prefixed command list at `pos`: the commands
/// decoded and the position just past them, or `None` when the bytes
/// violate the grammar.
pub open spec fn commands_spec(s: Seq<u8>, pos: int) -> Option<(Seq<CommandModel>, int)>
    decreases s.len() - pos, 0int,
{
    if pos + 2 > s.len() {
        None
    } else {
        commands_loop(s, pos + 2, be16(s, pos) as int)
    }
}

/// Decodes `k` commands starting at `pos`. Each command is an opcode, a
/// counted argument list, and, for the conditional opcode alone, counted
/// branches each holding a value and a nested command list.
pub open spec fn commands_loop(s: Seq<u8>, pos: int, k: int) -> Option<(Seq<CommandModel>, int)>
    decreases s.len() - pos, 2int,
{
    if k <= 0 {
        Some((Seq::empty(), pos))
    } else if pos + 4 > s.len() {
        None
    } else {
        let cmd = be16(s, pos);
        let argc = be16(s, pos + 2) as int;
        if pos + 4 + 2 * argc > s.len() {
            None
        } else {
            let args = Seq::new(argc as nat, |q: int| be16(s, pos + 4 + 2 * q));
            let body = pos + 4 + 2 * argc;
            if cmd == 8 && argc == 2 {
                match branches_loop(s, body, args[1] as int) {
                    None => None,
                    Some((bs, pos2)) => {
                        let first = CommandModel::Conditional { var: args[0], branches: bs };
                        let pos2c = if pos2 <= pos {
                            body
                        } else if pos2 > s.len() {
                            s.len() as int
                        } else {
                            pos2
                        };
                        match commands_loop(s, pos2c, k - 1) {
                            None => None,
                            Some((rest, end)) => Some((seq![first] + rest, end)),
                        }
                    },
                }
            } else {
                match command_model_of(cmd, args) {
                    None => None,
                    Some(first) => match commands_loop(s, body, k - 1) {
                        None => None,
                        Some((rest, end)) => Some((seq![first] + rest, end)),
                    },
                }
            }
        }
    }
}

/// Decodes `b` conditional branches starting at `pos`, each a value
/// followed by a nested command list, in stream order.
pub open spec fn branches_loop(s: Seq<u8>, pos: int, b: int) -> Option<
    (Seq<(u16, Seq<CommandModel>)>, int),
>
    decreases s.len() - pos, 1int,
{
    if b <= 0 {
        Some((Seq::empty(), pos))
    } else if pos + 2 > s.len() {
        None
    } else {
        let value = be16(s, pos);
        match commands_spec(s, pos + 2) {
            None => None,
            Some((cs, pos1)) => {
                let pos1c = if pos1 <= pos {
                    pos + 2
                } else if pos1 > s.len() {
                    s.len() as int
                } else {
                    pos1
                };
                match branches_loop(s, pos1c, b - 1) {
                    None => None,
                    Some((rest, end)) => Some((seq![(value, cs)] + rest, end)),
                }
            },
        }
    }
}

/// A decoded command list ends between its start and the end of the
/// input, and holds exactly the counted number of commands.
pub proof fn lemma_commands_spec_advances(s: Seq<u8>, pos: int)
    ensures
        commands_spec(s, pos) matches Some((v, end)) ==> pos + 2 <= end <= s.len() && v.len()
            == be16(s, pos),
    decreases s.len() - pos, 0int,
{
    if pos + 2 <= s.len() {
        lemma_commands_loop_advances(s, pos + 2, be16(s, pos) as int);
    }
}

/// Companion to `lemma_commands_spec_advances` for the command loop.
pub proof fn lemma_commands_loop_advances(s: Seq<u8>, pos: int, k: int)
    requires
        pos <= s.len(),
    ensures
        commands_loop(s, pos, k) matches Some((v, end)) ==> pos <= end <= s.len() && v.len() == (
        if k >= 0 {
            k
        } else {
            0
        }),
    decreases s.len() - pos, 2int,
{
    if k <= 0 || pos + 4 > s.len() {
    } else {
        let cmd = be16(s, pos);
        let argc = be16(s, pos + 2) as int;
        if pos + 4 + 2 * argc <= s.len() {
            let args = Seq::new(argc as nat, |q: int| be16(s, pos + 4 + 2 * q));
            let body = pos + 4 + 2 * argc;
            if cmd == 8 && argc == 2 {
                lemma_branches_loop_advances(s, body, args[1] as int);
                match branches_loop(s, body, args[1] as int) {
                    None => {},
                    Some((bs, pos2)) => {
                        let pos2c = if pos2 <= pos {
                            body
                        } else if pos2 > s.len() {
                            s.len() as int
                        } else {
                            pos2
                        };
                        lemma_commands_loop_advances(s, pos2c, k - 1);
                    },
                }
            } else {
                lemma_commands_loop_advances(s, body, k - 1);
            }
        }
    }
}

/// Companion to `lemma_commands_spec_advances` for the branch loop.
pub proof fn lemma_branches_loop_advances(s: Seq<u8>, pos: int, b: int)
    requires
        pos <= s.len(),
    ensures
        branches_loop(s, pos, b) matches Some((bs, end)) ==> pos <= end <= s.len() && bs.len()
            == (if b >= 0 {
            b
        } else {
            0
        }),
    decreases s.len() - pos, 1int,
{
    if b <= 0 || pos + 2 > s.len() {
    } else {
        lemma_commands_spec_advances(s, pos + 2);
        match commands_spec(s, pos + 2) {
            None => {},
            Some((cs, pos1)) => {
                let pos1c = if pos1 <= pos {
                    pos + 2
                } else if pos1 > s.len() {
                    s.len() as int
                } else {
                    pos1
                };
                lemma_branches_loop_advances(s, pos1c, b - 1);
            },
        }
    }
}

/// The meaning of a handler table at `pos`: the count-prefixed pairs of
/// event selector and command list, kept in stream order, a repeated
/// selector yielding repeated entries; `None` on an unknown selector or
/// malformed nested list.
pub open spec fn handlers_spec(s: Seq<u8>, pos: int) -> Option<
    (Seq<(Event, Seq<CommandModel>)>, int),
> {
    if pos + 2 > s.len() {
        None
    } else {
        handlers_loop(s, pos + 2, be16(s, pos) as int)
    }
}

/// Decodes `k` handlers starting at `pos`.
pub open spec fn handlers_loop(s: Seq<u8>, pos: int, k: int) -> Option<
    (Seq<(Event, Seq<CommandModel>)>, int),
>
    decreases s.len() - pos,
{
    if k <= 0 {
        Some((Seq::empty(), pos))
    } else if pos + 2 > s.len() {
        None
    } else {
        match event_model_of(be16(s, pos)) {
            None => None,
            Some(ev) => match commands_spec(s, pos + 2) {
                None => None,
                Some((cs, pos1)) => {
                    let pos1c = if pos1 <= pos {
                        pos + 2
                    } else if pos1 > s.len() {
                        s.len() as int
                    } else {
                        pos1
                    };
                    match handlers_loop(s, pos1c, k - 1) {
                        None => None,
                        Some((rest, end)) => Some((seq![(ev, cs)] + rest, end)),
                    }
                },
            },
        }
    }
}

/// A decoded handler table ends inside the input and holds exactly the
/// counted number of handlers.
pub proof fn lemma_handlers_loop_advances(s: Seq<u8>, pos: int, k: int)
    requires
        pos <= s.len(),
    ensures
        handlers_loop(s, pos, k) matches Some((v, end)) ==> pos <= end <= s.len() && v.len() == (
        if k >= 0 {
            k
        } else {
            0
        }),
    decreases s.len() - pos,
{
    if k <= 0 || pos + 2 > s.len() {
    } else if event_model_of(be16(s, pos)) is Some {
        lemma_commands_spec_advances(s, pos + 2);
        match commands_spec(s, pos + 2) {
            None => {},
            Some((cs, pos1)) => {
                let pos1c = if pos1 <= pos {
                    pos + 2
                } else if pos1 > s.len() {
                    s.len() as int
                } else {
                    pos1
                };
                lemma_handlers_loop_advances(s, pos1c, k - 1);
            },
        }
    }
}


/// A decoded handler table ends between its start and the end of the
/// input, and holds exactly the counted number of handlers.
pub proof fn lemma_handlers_spec_advances(s: Seq<u8>, pos: int)
    ensures
        handlers_spec(s, pos) matches Some((v, end)) ==> pos + 2 <= end <= s.len() && v.len()
            == be16(s, pos),
{
    if pos + 2 <= s.len() {
        lemma_handlers_loop_advances(s, pos + 2, be16(s, pos) as int);
    }
}

/// The shape of a handler list is as long as the list.
pub proof fn lemma_view_handlers_len(hs: Seq<(Event, Vec<Command>)>)
    ensures
        view_handlers(hs).len() == hs.len(),
    decreases hs.len(),
{
    if hs.len() > 0 {
        lemma_view_handlers_len(hs.drop_first());
    }
}

/// The spec-level shape of one handler.
pub open spec fn view_handler(h: (Event, Vec<Command>)) -> (Event, Seq<CommandModel>)
    decreases h, 3int,
{
    (h.0, view_commands_vec(h.1))
}

/// The spec-level shape of a handler list.
pub open spec fn view_handlers(hs: Seq<(Event, Vec<Command>)>) -> Seq<(Event, Seq<CommandModel>)>
    decreases hs, 4int,
{
    if hs.len() == 0 {
        Seq::empty()
    } else {
        seq![view_handler(hs[0])] + view_handlers(hs.drop_first())
    }
}

/// Appending a handler to a list appends its shape.
pub proof fn lemma_view_handlers_push(hs: Seq<(Event, Vec<Command>)>, h: (Event, Vec<Command>))
    ensures
        view_handlers(hs.push(h)) == view_handlers(hs).push(view_handler(h)),
    decreases hs.len(),
{
    if hs.len() == 0 {
        assert(hs.push(h).drop_first() =~= hs);
        assert(view_handlers(hs.push(h)) =~= view_handlers(hs).push(view_handler(h)));
    } else {
        assert(hs.push(h).drop_first() =~= hs.drop_first().push(h));
        lemma_view_handlers_push(hs.drop_first(), h);
        assert(view_handlers(hs.push(h)) =~= view_handlers(hs).push(view_handler(h)));
    }
}


/// Decodes one count-prefixed list of commands starting at `*pos`,
/// advancing past what was consumed: succeeds exactly when the grammar
/// spec `commands_spec` accepts the bytes, and then returns exactly the
/// commands it decodes, ending exactly where it ends. An opcode outside
/// the known table, a wrong arity, or a truncated record is a format
/// error, and no partial list escapes.
pub fn deserialize_commands(s: &[u8], pos: &mut usize) -> (r: Result<Vec<Command>, MhkError>)
    ensures
        match r {
            Ok(v) => (commands_spec(s@, *old(pos) as int) matches Some((models, end))
                && view_commands(v@) == models && *final(pos) == end),
            Err(e) => commands_spec(s@, *old(pos) as int) is None && e
                matches MhkError::InvalidFormat(_),
        },
    decreases s@.len() - *pos,
{
    let ghost p0 = *pos as int;
    let count = match take_u16(s, pos) {
        Ok(v) => v,
        Err(e) => {
            return Err(e);
        },
    };
    let mut commands: Vec<Command> = Vec::new();
    let mut i: usize = 0;
    proof {
        assert(view_commands(commands@) =~= Seq::<CommandModel>::empty());
        match commands_loop(s@, *pos as int, count as int) {
            Some((rest, end)) => {
                assert(view_commands(commands@) + rest =~= rest);
            },
            None => {},
        }
    }
    while i < count as usize
        invariant
            i <= count as usize,
            *pos >= p0 + 2,
            *pos <= s@.len(),
            p0 == *old(pos),
            commands@.len() == i,
            commands_spec(s@, p0) == (match commands_loop(
                s@,
                *pos as int,
                count as int - i as int,
            ) {
                None => None::<(Seq<CommandModel>, int)>,
                Some((rest, end)) => Some((view_commands(commands@) + rest, end)),
            }),
        decreases count as usize - i,
    {
        let ghost cmd_start = *pos as int;
        let ghost k = count as int - i as int;
        let cmd = match take_u16(s, pos) {
            Ok(v) => v,
            Err(e) => {
                return Err(e);
            },
        };
        // every command carries a count-prefixed argument list
        let argc = match take_u16(s, pos) {
            Ok(v) => v,
            Err(e) => {
                return Err(e);
            },
        };
        let ghost spec_args = Seq::new(argc as nat, |q: int| be16(s@, cmd_start + 4 + 2 * q));
        let mut args: Vec<u16> = Vec::new();
        let mut q: usize = 0;
        while q < argc as usize
            invariant
                q <= argc as usize,
                args@.len() == q,
                *pos == cmd_start + 4 + 2 * q,
                *pos <= s@.len(),
                cmd_start >= 0,
                cmd_start >= p0 + 2 - 4,
                k >= 1,
                p0 == *old(pos),
                cmd == be16(s@, cmd_start),
                argc == be16(s@, cmd_start + 2),
                cmd_start + 4 <= s@.len(),
                commands_spec(s@, p0) == (match commands_loop(s@, cmd_start, k) {
                    None => None::<(Seq<CommandModel>, int)>,
                    Some((rest, end)) => Some((view_commands(commands@) + rest, end)),
                }),
                spec_args == Seq::new(argc as nat, |qq: int| be16(s@, cmd_start + 4 + 2 * qq)),
                forall|qq: int| 0 <= qq < q ==> args@[qq] == spec_args[qq],
            decreases argc as usize - q,
        {
            let a = match take_u16(s, pos) {
                Ok(v) => v,
                Err(e) => {
                    proof {
                        assert(cmd_start + 4 + 2 * (argc as int) > s@.len());
                    }
                    return Err(e);
                },
            };
            args.push(a);
            q = q + 1;
        }
        proof {
            assert(args@ =~= spec_args);
        }
        let parsed: Command = if cmd == 8 && args.len() == 2 {
            // conditional: each branch value is followed by a nested
            // command list
            let var = args[0];
            let value_count = args[1];
            let ghost body = *pos as int;
            let ghost slen = s@.len() as int;
            let mut branches: Vec<(u16, Vec<Command>)> = Vec::new();
            let mut b: usize = 0;
            proof {
                assert(view_branches(branches@) =~= Seq::<(u16, Seq<CommandModel>)>::empty());
                match branches_loop(s@, body, value_count as int) {
                    Some((rest, end)) => {
                        assert(view_branches(branches@) + rest =~= rest);
                    },
                    None => {},
                }
            }
            while b < value_count as usize
                invariant
                    b <= value_count as usize,
                    branches@.len() == b,
                    *pos >= body,
                    *pos >= p0 + 2,
                    *pos <= s@.len(),
                    body >= cmd_start + 8,
                    p0 == *old(pos),
                    slen == s@.len(),
                    commands_spec(s@, p0) == (match branches_loop(s@, body, value_count as int) {
                        None => None::<(Seq<CommandModel>, int)>,
                        Some((bs, pos2)) => {
                            let pos2c = if pos2 <= cmd_start {
                                body
                            } else if pos2 > slen {
                                slen
                            } else {
                                pos2
                            };
                            match commands_loop(s@, pos2c, k - 1) {
                                None => None::<(Seq<CommandModel>, int)>,
                                Some((rest, end)) => Some(
                                    (
                                        view_commands(commands@) + (seq![
                                            CommandModel::Conditional {
                                                var: var,
                                                branches: bs,
                                            },
                                        ] + rest),
                                        end,
                                    ),
                                ),
                            }
                        },
                    }),
                    branches_loop(s@, body, value_count as int) == (match branches_loop(
                        s@,
                        *pos as int,
                        value_count as int - b as int,
                    ) {
                        None => None::<(Seq<(u16, Seq<CommandModel>)>, int)>,
                        Some((rest, end)) => Some((view_branches(branches@) + rest, end)),
                    }),
                decreases value_count as usize - b,
            {
                let ghost bpos = *pos as int;
                let value = match take_u16(s, pos) {
                    Ok(v) => v,
                    Err(e) => {
                        return Err(e);
                    },
                };
                let subcommands = match deserialize_commands(s, pos) {
                    Ok(v) => v,
                    Err(e) => {
                        return Err(e);
                    },
                };
                let ghost prev = branches@;
                proof {
                    lemma_commands_spec_advances(s@, bpos + 2);
                    lemma_view_branches_push(prev, (value, subcommands));
                    assert(view_branch((value, subcommands)) == (
                    value,
                    view_commands(subcommands@),
                    ));
                }
                branches.push((value, subcommands));
                proof {
                    match branches_loop(s@, *pos as int, value_count as int - b as int - 1) {
                        Some((rest, end)) => {
                            assert(view_branches(branches@) + rest =~= view_branches(prev) + (
                            seq![view_branch((value, subcommands))] + rest));
                        },
                        None => {},
                    }
                }
                b = b + 1;
            }
            proof {
                assert(branches_loop(s@, *pos as int, 0int) == Some((
                    Seq::<(u16, Seq<CommandModel>)>::empty(),
                    *pos as int,
                )));
                match branches_loop(s@, body, value_count as int) {
                    Some((bs, pos2)) => {
                        assert(view_branches(branches@) + Seq::<(
                            u16,
                            Seq<CommandModel>,
                        )>::empty() =~= view_branches(branches@));
                        lemma_branches_loop_advances(s@, body, value_count as int);
                    },
                    None => {},
                }
            }
            let parsed = Command::Conditional { var, branches };
            proof {
                assert(view_command(parsed) == (CommandModel::Conditional {
                    var: var,
                    branches: view_branches(parsed->Conditional_branches@),
                }));
            }
            parsed
        } else {
            match decode_plain(cmd, args) {
                Ok(c) => c,
                Err(e) => {
                    return Err(e);
                },
            }
        };
        proof {
            lemma_view_commands_push(commands@, parsed);
            match commands_loop(s@, *pos as int, k - 1) {
                Some((rest, end)) => {
                    assert(view_commands(commands@.push(parsed)) + rest =~= view_commands(
                        commands@,
                    ) + (seq![view_command(parsed)] + rest));
                },
                None => {},
            }
        }
        commands.push(parsed);
        i = i + 1;
    }
    proof {
        assert(commands_loop(s@, *pos as int, 0int) == Some((
            Seq::<CommandModel>::empty(),
            *pos as int,
        )));
        assert(view_commands(commands@) + Seq::<CommandModel>::empty() =~= view_commands(
            commands@,
        ));
    }
    Ok(commands)
}

/// Decodes the count-prefixed table of event handlers of a card or
/// hotspot: each handler is an event selector followed by its command
/// list; an unknown selector is a format error. Succeeds exactly when
/// `handlers_spec` accepts the bytes, returning every pair in stream
/// order — a repeated selector yields repeated entries, later ones
/// standing later in the list.
pub fn deserialize_handlers(s: &[u8], pos: &mut usize) -> (r: Result<
    Vec<(Event, Vec<Command>)>,
    MhkError,
>)
    ensures
        match r {
            Ok(v) => (handlers_spec(s@, *old(pos) as int) matches Some((models, end))
                && view_handlers(v@) == models && *final(pos) == end),
            Err(e) => handlers_spec(s@, *old(pos) as int) is None && e
                matches MhkError::InvalidFormat(_),
        },
{
    let ghost p0 = *pos as int;
    let count = match take_u16(s, pos) {
        Ok(v) => v,
        Err(e) => {
            return Err(e);
        },
    };
    let mut handlers: Vec<(Event, Vec<Command>)> = Vec::new();
    let mut i: usize = 0;
    proof {
        assert(view_handlers(handlers@) =~= Seq::<(Event, Seq<CommandModel>)>::empty());
        match handlers_loop(s@, *pos as int, count as int) {
            Some((rest, end)) => {
                assert(view_handlers(handlers@) + rest =~= rest);
            },
            None => {},
        }
    }
    while i < count as usize
        invariant
            i <= count as usize,
            *pos >= p0 + 2,
            *pos <= s@.len(),
            p0 == *old(pos),
            handlers@.len() == i,
            handlers_spec(s@, p0) == (match handlers_loop(
                s@,
                *pos as int,
                count as int - i as int,
            ) {
                None => None::<(Seq<(Event, Seq<CommandModel>)>, int)>,
                Some((rest, end)) => Some((view_handlers(handlers@) + rest, end)),
            }),
        decreases count as usize - i,
    {
        let ghost hpos = *pos as int;
        let event_type = match take_u16(s, pos) {
            Ok(v) => v,
            Err(e) => {
                return Err(e);
            },
        };
        let event = if event_type == 0 {
            Event::MouseDown
        } else if event_type == 1 {
            Event::MouseStillDown
        } else if event_type == 2 {
            Event::MouseUp
        } else if event_type == 3 {
            Event::MouseEnter
        } else if event_type == 4 {
            Event::MouseWithin
        } else if event_type == 5 {
            Event::MouseLeave
        } else if event_type == 6 {
            Event::LoadCard
        } else if event_type == 7 {
            Event::CloseCard
        } else if event_type == 9 {
            Event::OpenCard
        } else if event_type == 10 {
            Event::DisplayUpdate
        } else {
            proof {
                assert(event_model_of(be16(s@, hpos)) is None);
            }
            return Err(MhkError::InvalidFormat("bad event type"));
        };
        proof {
            assert(event_model_of(be16(s@, hpos)) == Some(event));
        }
        let commands = match deserialize_commands(s, pos) {
            Ok(v) => v,
            Err(e) => {
                return Err(e);
            },
        };
        let ghost prev = handlers@;
        proof {
            lemma_commands_spec_advances(s@, hpos + 2);
            lemma_view_handlers_push(prev, (event, commands));
            assert(view_handler((event, commands)) == (event, view_commands(commands@)));
        }
        handlers.push((event, commands));
        proof {
            match handlers_loop(s@, *pos as int, count as int - i as int - 1) {
                Some((rest, end)) => {
                    assert(view_handlers(handlers@) + rest =~= view_handlers(prev) + (seq![
                        view_handler((event, commands)),
                    ] + rest));
                },
                None => {},
            }
        }
        i = i + 1;
    }
    proof {
        assert(handlers_loop(s@, *pos as int, 0int) == Some((
            Seq::<(Event, Seq<CommandModel>)>::empty(),
            *pos as int,
        )));
        assert(view_handlers(handlers@) + Seq::<(Event, Seq<CommandModel>)>::empty()
            =~= view_handlers(handlers@));
    }
    Ok(handlers)
}

} // verus!
