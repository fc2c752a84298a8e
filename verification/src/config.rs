//! The default keybind and command tables: static configuration, loaded once
//! at startup and immutable thereafter.

use vstd::prelude::*;

use crate::editor::{Command, CommandAction};
use crate::resolver::{KeyAction, Keybind, Mode, PatToken};

verus! {

/// A keybind with the given mode, pattern and action.
pub open spec fn keybind_is(kb: Keybind, mode: Mode, key: Seq<PatToken>, f: KeyAction) -> bool {
    kb.mode == mode && kb.key@ == key && kb.function == f
}

/// The full default keybind table, in the order it is assembled: the insert
/// binds, then the command binds, then the normal binds.
pub open spec fn is_default_keybinds(t: Seq<Keybind>) -> bool {
    &&& t.len() == 16
    &&& keybind_is(t[0], Mode::Insert, seq![PatToken::Any], KeyAction::InsertChar)
    &&& keybind_is(t[1], Mode::Insert, seq![PatToken::Enter], KeyAction::BreakLine)
    &&& keybind_is(t[2], Mode::Insert, seq![PatToken::Back], KeyAction::DeleteBack)
    &&& keybind_is(t[3], Mode::Insert, seq![PatToken::Esc], KeyAction::EnterNormal)
    &&& keybind_is(t[4], Mode::Command, seq![PatToken::Esc], KeyAction::PromptCancel)
    &&& keybind_is(t[5], Mode::Command, seq![PatToken::Any], KeyAction::PromptAppend)
    &&& keybind_is(t[6], Mode::Command, seq![PatToken::Back], KeyAction::PromptBack)
    &&& keybind_is(t[7], Mode::Command, seq![PatToken::Enter], KeyAction::PromptSubmit)
    &&& keybind_is(t[8], Mode::Normal, seq![PatToken::Ch('i')], KeyAction::EnterInsert)
    &&& keybind_is(t[9], Mode::Normal, seq![PatToken::Ch('q')], KeyAction::Quit)
    &&& keybind_is(t[10], Mode::Normal, seq![PatToken::Ch('w')], KeyAction::Save)
    &&& keybind_is(t[11], Mode::Normal, seq![PatToken::Ch('j')], KeyAction::CursorDown)
    &&& keybind_is(t[12], Mode::Normal, seq![PatToken::Ch('k')], KeyAction::CursorUp)
    &&& keybind_is(t[13], Mode::Normal, seq![PatToken::Ch('h')], KeyAction::CursorLeft)
    &&& keybind_is(t[14], Mode::Normal, seq![PatToken::Ch('l')], KeyAction::CursorRight)
    &&& keybind_is(t[15], Mode::Normal, seq![PatToken::Ch(':')], KeyAction::EnterCommand)
}

/// Builds a keybind whose pattern is a single token.
fn single(mode: Mode, t: PatToken, f: KeyAction) -> (kb: Keybind)
    ensures
        keybind_is(kb, mode, seq![t], f),
{
    let mut key: Vec<PatToken> = Vec::new();
    key.push(t);
    proof {
        assert(key@ =~= seq![t]);
    }
    Keybind { mode, key, function: f }
}

/// The keybinds active in insert mode: literal insertion, line break,
/// backspace, and leaving to normal mode.
fn insert_keybinds(result: &mut Vec<Keybind>)
    ensures
        final(result)@.len() == old(result)@.len() + 4,
        keybind_is(
            final(result)@[old(result)@.len() as int],
            Mode::Insert,
            seq![PatToken::Any],
            KeyAction::InsertChar,
        ),
        keybind_is(
            final(result)@[old(result)@.len() as int + 1],
            Mode::Insert,
            seq![PatToken::Enter],
            KeyAction::BreakLine,
        ),
        keybind_is(
            final(result)@[old(result)@.len() as int + 2],
            Mode::Insert,
            seq![PatToken::Back],
            KeyAction::DeleteBack,
        ),
        keybind_is(
            final(result)@[old(result)@.len() as int + 3],
            Mode::Insert,
            seq![PatToken::Esc],
            KeyAction::EnterNormal,
        ),
        forall|i: int| 0 <= i < old(result)@.len() ==> final(result)@[i] == old(result)@[i],
{
    result.push(single(Mode::Insert, PatToken::Any, KeyAction::InsertChar));
    result.push(single(Mode::Insert, PatToken::Enter, KeyAction::BreakLine));
    result.push(single(Mode::Insert, PatToken::Back, KeyAction::DeleteBack));
    result.push(single(Mode::Insert, PatToken::Esc, KeyAction::EnterNormal));
}

/// The keybinds active in command mode: prompt editing and submission.
fn command_keybinds(result: &mut Vec<Keybind>)
    ensures
        final(result)@.len() == old(result)@.len() + 4,
        keybind_is(
            final(result)@[old(result)@.len() as int],
            Mode::Command,
            seq![PatToken::Esc],
            KeyAction::PromptCancel,
        ),
        keybind_is(
            final(result)@[old(result)@.len() as int + 1],
            Mode::Command,
            seq![PatToken::Any],
            KeyAction::PromptAppend,
        ),
        keybind_is(
            final(result)@[old(result)@.len() as int + 2],
            Mode::Command,
            seq![PatToken::Back],
            KeyAction::PromptBack,
        ),
        keybind_is(
            final(result)@[old(result)@.len() as int + 3],
            Mode::Command,
            seq![PatToken::Enter],
            KeyAction::PromptSubmit,
        ),
        forall|i: int| 0 <= i < old(result)@.len() ==> final(result)@[i] == old(result)@[i],
{
    result.push(single(Mode::Command, PatToken::Esc, KeyAction::PromptCancel));
    result.push(single(Mode::Command, PatToken::Any, KeyAction::PromptAppend));
    result.push(single(Mode::Command, PatToken::Back, KeyAction::PromptBack));
    result.push(single(Mode::Command, PatToken::Enter, KeyAction::PromptSubmit));
}

/// The keybinds active in normal mode: mode switches, saving, quitting and
/// cursor movement.
fn normal_keybinds(result: &mut Vec<Keybind>)
    ensures
        final(result)@.len() == old(result)@.len() + 8,
        keybind_is(
            final(result)@[old(result)@.len() as int],
            Mode::Normal,
            seq![PatToken::Ch('i')],
            KeyAction::EnterInsert,
        ),
        keybind_is(
            final(result)@[old(result)@.len() as int + 1],
            Mode::Normal,
            seq![PatToken::Ch('q')],
            KeyAction::Quit,
        ),
        keybind_is(
            final(result)@[old(result)@.len() as int + 2],
            Mode::Normal,
            seq![PatToken::Ch('w')],
            KeyAction::Save,
        ),
        keybind_is(
            final(result)@[old(result)@.len() as int + 3],
            Mode::Normal,
            seq![PatToken::Ch('j')],
            KeyAction::CursorDown,
        ),
        keybind_is(
            final(result)@[old(result)@.len() as int + 4],
            Mode::Normal,
            seq![PatToken::Ch('k')],
            KeyAction::CursorUp,
        ),
        keybind_is(
            final(result)@[old(result)@.len() as int + 5],
            Mode::Normal,
            seq![PatToken::Ch('h')],
            KeyAction::CursorLeft,
        ),
        keybind_is(
            final(result)@[old(result)@.len() as int + 6],
            Mode::Normal,
            seq![PatToken::Ch('l')],
            KeyAction::CursorRight,
        ),
        keybind_is(
            final(result)@[old(result)@.len() as int + 7],
            Mode::Normal,
            seq![PatToken::Ch(':')],
            KeyAction::EnterCommand,
        ),
        forall|i: int| 0 <= i < old(result)@.len() ==> final(result)@[i] == old(result)@[i],
{
    result.push(single(Mode::Normal, PatToken::Ch('i'), KeyAction::EnterInsert));
    result.push(single(Mode::Normal, PatToken::Ch('q'), KeyAction::Quit));
    result.push(single(Mode::Normal, PatToken::Ch('w'), KeyAction::Save));
    result.push(single(Mode::Normal, PatToken::Ch('j'), KeyAction::CursorDown));
    result.push(single(Mode::Normal, PatToken::Ch('k'), KeyAction::CursorUp));
    result.push(single(Mode::Normal, PatToken::Ch('h'), KeyAction::CursorLeft));
    result.push(single(Mode::Normal, PatToken::Ch('l'), KeyAction::CursorRight));
    result.push(single(Mode::Normal, PatToken::Ch(':'), KeyAction::EnterCommand));
}

/// The whole default keybind table.
pub fn get_keybinds() -> (result: Vec<Keybind>)
    ensures
        is_default_keybinds(result@),
{
    let mut result: Vec<Keybind> = Vec::new();
    insert_keybinds(&mut result);
    command_keybinds(&mut result);
    normal_keybinds(&mut result);
    result
}

/// The named ":"-command table: a flat name-to-action lookup.  The only
/// entry is `q`, which quits.
pub fn get_commands() -> (result: Vec<Command>)
    ensures
        result@.len() == 1,
        result@[0].name@ == seq!['q'],
        result@[0].function == CommandAction::Quit,
{
    let mut name: Vec<char> = Vec::new();
    name.push('q');
    proof {
        assert(name@ =~= seq!['q']);
    }
    let mut result: Vec<Command> = Vec::new();
    result.push(Command { name, function: CommandAction::Quit });
    result
}

} // verus!
