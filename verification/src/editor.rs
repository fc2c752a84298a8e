//! The editor state and its transitions: the text buffer with its logical
//! cursor, the viewport projection of the cursor onto a screen row, and the
//! dispatch of resolved keybind actions.  Every transition is a pure step
//! from state and input to state and effect; the surrounding shell performs
//! the effects (writing a file, quitting) and feeds events back in.

use vstd::prelude::*;

use crate::config;
use crate::layout::{
    base_row, layout_spec, lemma_layout_structure, lemma_layout_valid,
    lemma_line_segments_from_partition, recompute_layout, vis_row, VisualSegment,
};
use crate::resolver::{
    fresh_candidates, new_sequence, resolve_token, specific_of, survivors, KeyAction, Keybind,
    MatchState, Mode, Resolution, Token,
};

verus! {

/// The action bound to a named ":"-command.
#[derive(Clone, Copy, PartialEq, Eq, Structural, Debug)]
pub enum CommandAction {
    Quit,
}

/// One entry of the ":"-command table: a name looked up by exact match, and
/// the action it runs.
pub struct Command {
    pub name: Vec<char>,
    pub function: CommandAction,
}

/// The first command whose name matches, if any.
pub open spec fn find_command(cmds: Seq<Command>, name: Seq<char>) -> Option<CommandAction>
    decreases cmds.len(),
{
    if cmds.len() == 0 {
        None
    } else if cmds[0].name@ == name {
        Some(cmds[0].function)
    } else {
        find_command(cmds.drop_first(), name)
    }
}

/// What submitting a prompt does: the looked-up command's effect, or nothing
/// for an unknown name (silently ignored).
pub open spec fn command_effect(cmds: Seq<Command>, name: Seq<char>) -> Effect {
    match find_command(cmds, name) {
        Some(CommandAction::Quit) => Effect::Quit,
        None => Effect::Nothing,
    }
}

/// An effect the surrounding shell must perform: nothing, writing the given
/// contents to the given file, or terminating the session.
pub enum Effect {
    Nothing,
    Save { filename: String, contents: Vec<char> },
    Quit,
}

/// One input event: a terminal resize or one key token.
pub enum Event {
    Resize(usize, usize),
    Key(Token),
}

/// The buffer lines joined by the separator character.
pub open spec fn joined_spec(lines: Seq<Vec<char>>, sep: char) -> Seq<char>
    decreases lines.len(),
{
    if lines.len() == 0 {
        Seq::empty()
    } else if lines.len() == 1 {
        lines[0]@
    } else {
        joined_spec(lines.drop_last(), sep).push(sep) + lines.last()@
    }
}

/// A screen row clamped to `[0, height)`: when the unclamped row would leave
/// the window, the row holds at the boundary instead.
pub open spec fn clamp_row(c: int, height: usize) -> int {
    if c < 0 {
        0
    } else if c >= height {
        height - 1
    } else {
        c
    }
}

/// The whole editor state.
pub struct State {
    /// The buffer: the ordered logical lines of text.
    pub text: Vec<Vec<char>>,
    /// The derived visual text, recomputed by `update_visuallines`.
    pub visualtext: Vec<VisualSegment>,
    /// The cursor's screen column.
    pub cursor_posx: usize,
    /// The screen row currently holding the logical cursor.
    pub cursor_posy: usize,
    /// The logical cursor column; it may equal the line length.
    pub file_posx: usize,
    /// The logical cursor row.
    pub file_posy: usize,
    /// The logical cursor column captured once per frame, before input.
    pub old_posx: usize,
    /// The logical cursor row captured once per frame, before input.
    pub old_posy: usize,
    /// The display height in rows.
    pub height: usize,
    /// The display width in columns.
    pub width: usize,
    /// The current mode.
    pub mode: Mode,
    /// The file this session is associated with, if any.
    pub filename: Option<String>,
    /// The keybind table, loaded once at startup.
    pub keybinds: Vec<Keybind>,
    /// The ":"-command table, loaded once at startup.
    pub commands: Vec<Command>,
    /// The command prompt's buffer.
    pub prompbuffer: Vec<char>,
    /// The resolver's state for the key sequence in progress.
    pub pending: MatchState,
}

impl State {
    /// The state's invariant: at least one line, the cursor inside the
    /// buffer (its column may sit just past the last character), positive
    /// display dimensions, the cursor row on screen, and a resolver state
    /// that indexes into the keybind table.
    pub open spec fn wf(self) -> bool {
        &&& self.text@.len() >= 1
        &&& self.file_posy < self.text@.len()
        &&& self.file_posx <= self.text@[self.file_posy as int]@.len()
        &&& self.old_posy < self.text@.len()
        &&& self.width >= 1
        &&& self.height >= 1
        &&& self.cursor_posy < self.height
        &&& self.pending.wf(self.keybinds@)
    }
}

/// The buffer and the logical cursor are unchanged.
pub open spec fn same_buffer(pre: State, post: State) -> bool {
    &&& post.text@ == pre.text@
    &&& post.file_posx == pre.file_posx
    &&& post.file_posy == pre.file_posy
}

/// The display dimensions are unchanged.
pub open spec fn same_geometry(pre: State, post: State) -> bool {
    &&& post.width == pre.width
    &&& post.height == pre.height
}

/// The keybind table, the command table and the filename are unchanged.
pub open spec fn same_tables(pre: State, post: State) -> bool {
    &&& post.keybinds@ == pre.keybinds@
    &&& post.commands@ == pre.commands@
    &&& post.filename == pre.filename
}

/// The derived visual data is unchanged.
pub open spec fn same_visual(pre: State, post: State) -> bool {
    &&& post.visualtext@ == pre.visualtext@
    &&& post.cursor_posx == pre.cursor_posx
    &&& post.cursor_posy == pre.cursor_posy
}

/// The per-frame captured cursor position is unchanged.
pub open spec fn same_oldpos(pre: State, post: State) -> bool {
    &&& post.old_posx == pre.old_posx
    &&& post.old_posy == pre.old_posy
}

/// The resolver state is unchanged.
pub open spec fn same_pending(pre: State, post: State) -> bool {
    post.pending == pre.pending
}

/// The mode and the prompt buffer are unchanged.
pub open spec fn same_mode_prompt(pre: State, post: State) -> bool {
    &&& post.mode == pre.mode
    &&& post.prompbuffer@ == pre.prompbuffer@
}

/// The fields no keybind action touches.
pub open spec fn same_surroundings(pre: State, post: State) -> bool {
    &&& same_geometry(pre, post)
    &&& same_tables(pre, post)
    &&& same_visual(pre, post)
    &&& same_oldpos(pre, post)
}

/// One line of the buffer was replaced and all others kept.
pub open spec fn text_updated_line(
    pre: Seq<Vec<char>>,
    post: Seq<Vec<char>>,
    y: int,
    newline: Seq<char>,
) -> bool {
    &&& post.len() == pre.len()
    &&& post[y]@ == newline
    &&& forall|i: int| 0 <= i < pre.len() && i != y ==> post[i] == pre[i]
}

/// The resolver state is a fresh sequence scoped to the state's own mode.
pub open spec fn pending_fresh(s: State) -> bool {
    &&& s.pending.candidates@ == fresh_candidates(s.keybinds@, s.mode)
    &&& s.pending.consumed == 0
    &&& s.pending.pressed@ == Seq::<Token>::empty()
}

/// What each dispatched action does to the state, given the literal tokens
/// pressed during the sequence, and which effect it hands to the shell.
/// The resolver's own state is not constrained here; the keystroke
/// transition resets it separately.
pub open spec fn action_transition(
    pre: State,
    post: State,
    a: KeyAction,
    pressed: Seq<Token>,
    eff: Effect,
) -> bool {
    let y = pre.file_posy as int;
    let x = pre.file_posx as int;
    let line = pre.text@[y]@;
    &&& same_surroundings(pre, post)
    &&& match a {
        KeyAction::InsertChar => {
            &&& post.mode == pre.mode
            &&& post.prompbuffer@ == pre.prompbuffer@
            &&& eff is Nothing
            &&& if pressed.len() > 0 && pressed[0] is Ch {
                &&& text_updated_line(pre.text@, post.text@, y, line.insert(x, pressed[0]->0))
                &&& post.file_posx == pre.file_posx + 1
                &&& post.file_posy == pre.file_posy
            } else {
                same_buffer(pre, post)
            }
        },
        KeyAction::BreakLine => {
            &&& post.mode == pre.mode
            &&& post.prompbuffer@ == pre.prompbuffer@
            &&& eff is Nothing
            &&& post.text@.len() == pre.text@.len() + 1
            &&& post.text@[y]@ == line.take(x)
            &&& post.text@[y + 1]@ == line.skip(x)
            &&& forall|i: int| 0 <= i < y ==> post.text@[i] == pre.text@[i]
            &&& forall|i: int| y + 1 < i < post.text@.len() ==> post.text@[i] == pre.text@[i - 1]
            &&& post.file_posx == 0
            &&& post.file_posy == pre.file_posy + 1
        },
        KeyAction::DeleteBack => {
            &&& post.mode == pre.mode
            &&& post.prompbuffer@ == pre.prompbuffer@
            &&& eff is Nothing
            &&& if x > 0 {
                &&& text_updated_line(pre.text@, post.text@, y, line.remove(x - 1))
                &&& post.file_posx == pre.file_posx - 1
                &&& post.file_posy == pre.file_posy
            } else {
                same_buffer(pre, post)
            }
        },
        KeyAction::EnterNormal => {
            &&& same_buffer(pre, post)
            &&& post.mode == Mode::Normal
            &&& post.prompbuffer@ == pre.prompbuffer@
            &&& eff is Nothing
        },
        KeyAction::EnterInsert => {
            &&& same_buffer(pre, post)
            &&& post.mode == Mode::Insert
            &&& post.prompbuffer@ == pre.prompbuffer@
            &&& eff is Nothing
        },
        KeyAction::EnterCommand => {
            &&& same_buffer(pre, post)
            &&& post.mode == Mode::Command
            &&& post.prompbuffer@ == pre.prompbuffer@
            &&& eff is Nothing
        },
        KeyAction::Quit => {
            &&& same_buffer(pre, post)
            &&& post.mode == pre.mode
            &&& post.prompbuffer@ == pre.prompbuffer@
            &&& eff is Quit
        },
        KeyAction::Save => {
            &&& same_buffer(pre, post)
            &&& post.mode == pre.mode
            &&& post.prompbuffer@ == pre.prompbuffer@
            &&& match pre.filename {
                Some(name) => eff matches Effect::Save { filename, contents } && filename@
                    == name@ && contents@ == joined_spec(pre.text@, '\n'),
                None => eff is Nothing,
            }
        },
        KeyAction::CursorDown => {
            &&& post.text@ == pre.text@
            &&& post.mode == pre.mode
            &&& post.prompbuffer@ == pre.prompbuffer@
            &&& eff is Nothing
            &&& if y != pre.text@.len() - 1 {
                let below = pre.text@[y + 1]@.len() as int;
                &&& post.file_posy == pre.file_posy + 1
                &&& post.file_posx == if x <= below {
                    x
                } else {
                    below
                }
            } else {
                &&& post.file_posy == pre.file_posy
                &&& post.file_posx == pre.file_posx
            }
        },
        KeyAction::CursorUp => {
            &&& post.text@ == pre.text@
            &&& post.mode == pre.mode
            &&& post.prompbuffer@ == pre.prompbuffer@
            &&& eff is Nothing
            &&& if y != 0 {
                let above = pre.text@[y - 1]@.len() as int;
                &&& post.file_posy == pre.file_posy - 1
                &&& post.file_posx == if x <= above {
                    x
                } else {
                    above
                }
            } else {
                &&& post.file_posy == pre.file_posy
                &&& post.file_posx == pre.file_posx
            }
        },
        KeyAction::CursorLeft => {
            &&& post.text@ == pre.text@
            &&& post.mode == pre.mode
            &&& post.prompbuffer@ == pre.prompbuffer@
            &&& eff is Nothing
            &&& post.file_posy == pre.file_posy
            &&& post.file_posx == if x > 0 {
                x - 1
            } else {
                x
            }
        },
        KeyAction::CursorRight => {
            &&& post.text@ == pre.text@
            &&& post.mode == pre.mode
            &&& post.prompbuffer@ == pre.prompbuffer@
            &&& eff is Nothing
            &&& post.file_posy == pre.file_posy
            &&& post.file_posx == if x < line.len() {
                x + 1
            } else {
                x
            }
        },
        KeyAction::PromptAppend => {
            &&& same_buffer(pre, post)
            &&& post.mode == pre.mode
            &&& eff is Nothing
            &&& if pressed.len() > 0 && pressed[0] is Ch {
                post.prompbuffer@ == pre.prompbuffer@.push(pressed[0]->0)
            } else {
                post.prompbuffer@ == pre.prompbuffer@
            }
        },
        KeyAction::PromptBack => {
            &&& same_buffer(pre, post)
            &&& post.mode == pre.mode
            &&& eff is Nothing
            &&& if pre.prompbuffer@.len() > 0 {
                post.prompbuffer@ == pre.prompbuffer@.drop_last()
            } else {
                post.prompbuffer@ == pre.prompbuffer@
            }
        },
        KeyAction::PromptCancel => {
            &&& same_buffer(pre, post)
            &&& post.mode == Mode::Normal
            &&& post.prompbuffer@ == Seq::<char>::empty()
            &&& eff is Nothing
        },
        KeyAction::PromptSubmit => {
            &&& same_buffer(pre, post)
            &&& post.mode == Mode::Normal
            &&& post.prompbuffer@ == Seq::<char>::empty()
            &&& eff == command_effect(pre.commands@, pre.prompbuffer@)
        },
    }
}

/// The state is unchanged but for the resolver's own state.
pub open spec fn nonpending_same(pre: State, post: State) -> bool {
    &&& same_surroundings(pre, post)
    &&& same_buffer(pre, post)
    &&& same_mode_prompt(pre, post)
}

/// What one key token does to the whole editor: the resolver's decision,
/// then the dispatched action if one completed, and a fresh sequence
/// whenever the old one ended (by dispatch or by elimination).
pub open spec fn keystroke_transition(pre: State, post: State, tok: Token, eff: Effect) -> bool {
    let table = pre.keybinds@;
    let st = pre.pending;
    let surv = survivors(table, st.candidates@, st.consumed as int, tok);
    let spec1 = specific_of(table, surv);
    let pressed2 = st.pressed@.push(tok);
    let done = st.consumed + 1;
    if surv.len() == 0 {
        &&& nonpending_same(pre, post)
        &&& pending_fresh(post)
        &&& eff is Nothing
    } else if spec1.len() == 1 && table[spec1[0] as int].key@.len() == done {
        &&& action_transition(pre, post, table[spec1[0] as int].function, pressed2, eff)
        &&& pending_fresh(post)
    } else if surv.len() == 1 && table[surv[0] as int].key@.len() == done {
        &&& action_transition(pre, post, table[surv[0] as int].function, pressed2, eff)
        &&& pending_fresh(post)
    } else {
        &&& nonpending_same(pre, post)
        &&& post.pending.candidates@ == surv
        &&& post.pending.consumed == done
        &&& post.pending.pressed@ == pressed2
        &&& eff is Nothing
    }
}

/// Splits file content on the separator character into buffer lines: the
/// unique sequence of separator-free lines whose joined form is the content
/// again.  Splitting always yields at least one line, so even empty content
/// gives a buffer the editor accepts.
pub fn split_lines(content: &Vec<char>, sep: char) -> (r: Vec<Vec<char>>)
    ensures
        r@.len() >= 1,
        joined_spec(r@, sep) == content@,
        forall|i: int, j: int|
            0 <= i < r@.len() && 0 <= j < r@[i]@.len() ==> (#[trigger] r@[i]@[j]) != sep,
{
    let mut out: Vec<Vec<char>> = Vec::new();
    let mut cur: Vec<char> = Vec::new();
    let mut i: usize = 0;
    proof {
        assert(content@.subrange(0, 0) =~= Seq::<char>::empty());
        assert(joined_spec(out@.push(cur), sep) =~= content@.subrange(0, 0));
    }
    while i < content.len()
        invariant
            i <= content@.len(),
            joined_spec(out@.push(cur), sep) == content@.subrange(0, i as int),
            forall|a: int, b: int|
                0 <= a < out@.len() && 0 <= b < out@[a]@.len() ==> (#[trigger] out@[a]@[b]) != sep,
            forall|b: int| 0 <= b < cur@.len() ==> cur@[b] != sep,
        decreases content@.len() - i,
    {
        let c = content[i];
        let ghost pre_out = out@;
        let ghost pre_cur = cur;
        proof {
            assert(content@.subrange(0, i + 1) =~= content@.subrange(0, i as int).push(
                content@[i as int],
            ));
        }
        if c == sep {
            out.push(cur);
            cur = Vec::new();
            proof {
                let now = out@.push(cur);
                assert(now.drop_last() =~= pre_out.push(pre_cur));
                assert(joined_spec(now, sep) =~= content@.subrange(0, i + 1));
            }
        } else {
            cur.push(c);
            proof {
                let was = pre_out.push(pre_cur);
                let now = out@.push(cur);
                assert(now.drop_last() =~= pre_out);
                assert(was.drop_last() =~= pre_out);
                assert(joined_spec(now, sep) =~= content@.subrange(0, i + 1));
            }
        }
        i = i + 1;
    }
    proof {
        assert(content@.subrange(0, content@.len() as int) =~= content@);
    }
    out.push(cur);
    out
}

/// Copies the column range `[start, end)` of a line.
fn copy_range(line: &Vec<char>, start: usize, end: usize) -> (r: Vec<char>)
    requires
        start <= end <= line@.len(),
    ensures
        r@ == line@.subrange(start as int, end as int),
{
    let mut r: Vec<char> = Vec::new();
    proof {
        assert(line@.subrange(start as int, start as int) =~= Seq::<char>::empty());
    }
    let mut j: usize = start;
    while j < end
        invariant
            start <= j <= end,
            end <= line@.len(),
            r@ == line@.subrange(start as int, j as int),
        decreases end - j,
    {
        r.push(line[j]);
        proof {
            assert(line@.subrange(start as int, j + 1) =~= line@.subrange(
                start as int,
                j as int,
            ).push(line@[j as int]));
        }
        j = j + 1;
    }
    r
}

/// Whether two character sequences hold the same text.
fn text_eq(a: &Vec<char>, b: &Vec<char>) -> (r: bool)
    ensures
        r == (a@ == b@),
{
    if a.len() != b.len() {
        return false;
    }
    let mut i: usize = 0;
    while i < a.len()
        invariant
            i <= a@.len(),
            a@.len() == b@.len(),
            forall|j: int| 0 <= j < i ==> a@[j] == b@[j],
        decreases a@.len() - i,
    {
        if a[i] != b[i] {
            return false;
        }
        i = i + 1;
    }
    proof {
        assert(a@ =~= b@);
    }
    true
}

impl State {
    /// A fresh session over the given starting text, in normal mode with the
    /// cursor at the origin and no associated file.
    pub fn new(startext: Vec<Vec<char>>, width: usize, height: usize) -> (s: State)
        requires
            startext@.len() >= 1,
            width >= 1,
            height >= 1,
        ensures
            s.wf(),
            s.text@ == startext@,
            s.file_posx == 0,
            s.file_posy == 0,
            s.old_posx == 0,
            s.old_posy == 0,
            s.cursor_posx == 0,
            s.cursor_posy == 0,
            s.width == width,
            s.height == height,
            s.mode == Mode::Normal,
            s.filename is None,
            s.prompbuffer@ == Seq::<char>::empty(),
            s.visualtext@ == Seq::<VisualSegment>::empty(),
            config::is_default_keybinds(s.keybinds@),
            s.commands@.len() == 1,
            s.commands@[0].name@ == seq!['q'],
            s.commands@[0].function == CommandAction::Quit,
            pending_fresh(s),
    {
        let keybinds = config::get_keybinds();
        let commands = config::get_commands();
        let pending = new_sequence(&keybinds, Mode::Normal);
        State {
            text: startext,
            visualtext: Vec::new(),
            cursor_posx: 0,
            cursor_posy: 0,
            file_posx: 0,
            file_posy: 0,
            old_posx: 0,
            old_posy: 0,
            height,
            width,
            mode: Mode::Normal,
            filename: None,
            keybinds,
            commands,
            prompbuffer: Vec::new(),
            pending,
        }
    }

    /// Associates the session with a file, so that the save action writes
    /// to it.
    pub fn set_filename(&mut self, name: String)
        requires
            old(self).wf(),
        ensures
            final(self).wf(),
            final(self).filename matches Some(f) && f@ == name@,
            same_buffer(*old(self), *final(self)),
            same_geometry(*old(self), *final(self)),
            same_visual(*old(self), *final(self)),
            same_oldpos(*old(self), *final(self)),
            same_pending(*old(self), *final(self)),
            same_mode_prompt(*old(self), *final(self)),
            final(self).keybinds@ == old(self).keybinds@,
            final(self).commands@ == old(self).commands@,
    {
        self.filename = Some(name);
    }

    /// The buffer's lines joined by the separator character, as written on
    /// save.
    pub fn to_text(&self, sep: char) -> (r: Vec<char>)
        ensures
            r@ == joined_spec(self.text@, sep),
    {
        let mut out: Vec<char> = Vec::new();
        let mut i: usize = 0;
        while i < self.text.len()
            invariant
                i <= self.text@.len(),
                out@ == joined_spec(self.text@.subrange(0, i as int), sep),
            decreases self.text@.len() - i,
        {
            if i > 0 {
                out.push(sep);
            }
            let mut part = copy_range(&self.text[i], 0, self.text[i].len());
            out.append(&mut part);
            proof {
                let cur = self.text@.subrange(0, i + 1);
                assert(cur.drop_last() =~= self.text@.subrange(0, i as int));
                assert(cur.last() == self.text@[i as int]);
                if i == 0 {
                    assert(out@ =~= self.text@[0]@);
                }
            }
            i = i + 1;
        }
        proof {
            assert(self.text@.subrange(0, self.text@.len() as int) =~= self.text@);
        }
        out
    }

    /// Moves the cursor column to `new_x`, clamped to the current line's
    /// length.
    pub fn update_x(&mut self, new_x: usize)
        requires
            old(self).file_posy < old(self).text@.len(),
        ensures
            final(self).file_posx as int == if new_x as int <= old(self).text@[old(
                self,
            ).file_posy as int]@.len() {
                new_x as int
            } else {
                old(self).text@[old(self).file_posy as int]@.len() as int
            },
            final(self).text@ == old(self).text@,
            final(self).file_posy == old(self).file_posy,
            same_geometry(*old(self), *final(self)),
            same_tables(*old(self), *final(self)),
            same_visual(*old(self), *final(self)),
            same_oldpos(*old(self), *final(self)),
            same_pending(*old(self), *final(self)),
            same_mode_prompt(*old(self), *final(self)),
    {
        let len = self.text[self.file_posy].len();
        self.file_posx = if new_x < len {
            new_x
        } else {
            len
        };
    }

    /// Inserts a character at the cursor and advances the cursor column.
    pub fn insert_char(&mut self, c: char)
        requires
            old(self).wf(),
        ensures
            final(self).wf(),
            text_updated_line(
                old(self).text@,
                final(self).text@,
                old(self).file_posy as int,
                old(self).text@[old(self).file_posy as int]@.insert(old(self).file_posx as int, c),
            ),
            final(self).file_posx == old(self).file_posx + 1,
            final(self).file_posy == old(self).file_posy,
            same_geometry(*old(self), *final(self)),
            same_tables(*old(self), *final(self)),
            same_visual(*old(self), *final(self)),
            same_oldpos(*old(self), *final(self)),
            same_pending(*old(self), *final(self)),
            same_mode_prompt(*old(self), *final(self)),
    {
        let y = self.file_posy;
        let x = self.file_posx;
        let mut line = self.text.remove(y);
        line.insert(x, c);
        proof {
            assert(vstd::std_specs::vec::spec_vec_len(&line) == line@.len());
        }
        self.text.insert(y, line);
        self.file_posx = x + 1;
    }

    /// Splits the current line at the cursor column: the remainder becomes a
    /// new line below, and the cursor moves to column 0 of that line.
    pub fn split_line(&mut self)
        requires
            old(self).wf(),
        ensures
            final(self).wf(),
            final(self).text@.len() == old(self).text@.len() + 1,
            final(self).text@[old(self).file_posy as int]@ == old(self).text@[old(
                self,
            ).file_posy as int]@.take(old(self).file_posx as int),
            final(self).text@[old(self).file_posy + 1]@ == old(self).text@[old(
                self,
            ).file_posy as int]@.skip(old(self).file_posx as int),
            forall|i: int| 0 <= i < old(self).file_posy ==> final(self).text@[i] == old(self).text@[i],
            forall|i: int|
                old(self).file_posy + 1 < i < final(self).text@.len() ==> final(self).text@[i]
                    == old(self).text@[i - 1],
            final(self).file_posx == 0,
            final(self).file_posy == old(self).file_posy + 1,
            same_geometry(*old(self), *final(self)),
            same_tables(*old(self), *final(self)),
            same_visual(*old(self), *final(self)),
            same_oldpos(*old(self), *final(self)),
            same_pending(*old(self), *final(self)),
            same_mode_prompt(*old(self), *final(self)),
    {
        let y = self.file_posy;
        let x = self.file_posx;
        let mut line = self.text.remove(y);
        let rest = line.split_off(x);
        self.text.insert(y, line);
        proof {
            assert(vstd::std_specs::vec::spec_vec_len(&self.text) == self.text@.len());
        }
        self.text.insert(y + 1, rest);
        self.file_posx = 0;
        self.file_posy = y + 1;
    }

    /// Deletes the character before the cursor; at column 0 this is a no-op,
    /// not an error.
    pub fn delete_char_before(&mut self)
        requires
            old(self).wf(),
        ensures
            final(self).wf(),
            if old(self).file_posx > 0 {
                &&& text_updated_line(
                    old(self).text@,
                    final(self).text@,
                    old(self).file_posy as int,
                    old(self).text@[old(self).file_posy as int]@.remove(
                        old(self).file_posx - 1,
                    ),
                )
                &&& final(self).file_posx == old(self).file_posx - 1
            } else {
                &&& final(self).text@ == old(self).text@
                &&& final(self).file_posx == old(self).file_posx
            },
            final(self).file_posy == old(self).file_posy,
            same_geometry(*old(self), *final(self)),
            same_tables(*old(self), *final(self)),
            same_visual(*old(self), *final(self)),
            same_oldpos(*old(self), *final(self)),
            same_pending(*old(self), *final(self)),
            same_mode_prompt(*old(self), *final(self)),
    {
        if self.file_posx != 0 {
            let y = self.file_posy;
            let x = self.file_posx;
            let mut line = self.text.remove(y);
            line.remove(x - 1);
            self.text.insert(y, line);
            self.file_posx = x - 1;
        }
    }

    /// Looks the prompt buffer up in the command table; an unknown name is
    /// silently ignored.
    pub fn execute_command(&self) -> (eff: Effect)
        ensures
            eff == command_effect(self.commands@, self.prompbuffer@),
    {
        proof {
            assert(self.commands@.skip(0) =~= self.commands@);
        }
        let mut i: usize = 0;
        while i < self.commands.len()
            invariant
                i <= self.commands@.len(),
                find_command(self.commands@, self.prompbuffer@) == find_command(
                    self.commands@.skip(i as int),
                    self.prompbuffer@,
                ),
            decreases self.commands@.len() - i,
        {
            proof {
                assert(self.commands@.skip(i as int).drop_first() =~= self.commands@.skip(i + 1));
                assert(self.commands@.skip(i as int)[0] == self.commands@[i as int]);
            }
            if text_eq(&self.commands[i].name, &self.prompbuffer) {
                match self.commands[i].function {
                    CommandAction::Quit => {
                        return Effect::Quit;
                    },
                }
            }
            i = i + 1;
        }
        proof {
            assert(self.commands@.skip(self.commands@.len() as int) =~= Seq::<Command>::empty());
        }
        Effect::Nothing
    }
}

/// Moving the cursor row by a visual delta and then by the opposite delta
/// restores the original row, provided the first move keeps the row on
/// screen.  `c0` is the cursor row before the moves, `v1` the visual row of
/// the cursor before, and `v2` after, the first move.  (When the first move
/// is cut off at the window boundary the round trip can end on another row:
/// the clamp loses the distance travelled past the edge.)
pub proof fn lemma_cursor_row_round_trip(c0: int, v1: int, v2: int, height: usize)
    requires
        height >= 1,
        0 <= c0 < height,
        0 <= c0 + (v2 - v1) < height,
    ensures
        clamp_row(clamp_row(c0 + (v2 - v1), height) + (v1 - v2), height) == c0,
{
}

/// What a resize does: the dimensions are replaced (never by zero), the
/// cursor row is pulled back on screen if the window shrank, and the key
/// sequence in progress is abandoned.
pub open spec fn resize_transition(pre: State, post: State, w: usize, h: usize) -> bool {
    &&& same_buffer(pre, post)
    &&& same_tables(pre, post)
    &&& same_oldpos(pre, post)
    &&& same_mode_prompt(pre, post)
    &&& post.visualtext@ == pre.visualtext@
    &&& post.width == if w >= 1 {
        w
    } else {
        1
    }
    &&& post.height == if h >= 1 {
        h
    } else {
        1
    }
    &&& post.cursor_posx == pre.cursor_posx
    &&& post.cursor_posy as int == if pre.cursor_posy < post.height {
        pre.cursor_posy as int
    } else {
        post.height - 1
    }
    &&& pending_fresh(post)
}

impl State {
    /// Recomputes the visual text from the buffer and the current width.
    pub fn update_visuallines(&mut self)
        requires
            old(self).wf(),
        ensures
            final(self).wf(),
            final(self).visualtext@ == layout_spec(old(self).text@, old(self).width),
            same_buffer(*old(self), *final(self)),
            same_geometry(*old(self), *final(self)),
            same_tables(*old(self), *final(self)),
            same_oldpos(*old(self), *final(self)),
            same_pending(*old(self), *final(self)),
            same_mode_prompt(*old(self), *final(self)),
            final(self).cursor_posx == old(self).cursor_posx,
            final(self).cursor_posy == old(self).cursor_posy,
    {
        let segs = recompute_layout(&self.text, self.width);
        self.visualtext = segs;
    }

    /// The index of the first visual segment of the given logical line: its
    /// segment belongs to that line, and no earlier row does.
    pub fn find_visual_line(&self, line: usize) -> (r: usize)
        requires
            self.wf(),
            self.visualtext@ == layout_spec(self.text@, self.width),
            line < self.text@.len(),
        ensures
            r as int == base_row(self.text@, self.width, line as int),
            r < self.visualtext@.len(),
            self.visualtext@[r as int].source_line == line,
            forall|k: int| 0 <= k < r ==> (#[trigger] self.visualtext@[k]).source_line != line,
    {
        let n = self.text.len();
        proof {
            assert(vstd::std_specs::vec::spec_vec_len(&self.text@[line as int]) == self.text@[line as int]@.len());
            lemma_layout_structure(self.text@, self.width, line as int);
            lemma_line_segments_from_partition(
                line,
                0,
                self.text@[line as int]@.len() as usize,
                self.width,
            );
        }
        let ghost base = base_row(self.text@, self.width, line as int);
        let total = self.visualtext.len();
        let mut i: usize = 0;
        while self.visualtext[i].source_line != line
            invariant
                i <= base,
                total == self.visualtext@.len(),
                base < self.visualtext@.len(),
                base == base_row(self.text@, self.width, line as int),
                self.visualtext@[base].source_line == line,
                forall|k: int| 0 <= k < i ==> (#[trigger] self.visualtext@[k]).source_line != line,
            decreases base - i,
        {
            i = i + 1;
        }
        i
    }

    /// Captures the logical cursor position for the coming frame's delta.
    pub fn set_old_position(&mut self)
        requires
            old(self).wf(),
        ensures
            final(self).wf(),
            final(self).old_posx == old(self).file_posx,
            final(self).old_posy == old(self).file_posy,
            same_buffer(*old(self), *final(self)),
            same_geometry(*old(self), *final(self)),
            same_tables(*old(self), *final(self)),
            same_visual(*old(self), *final(self)),
            same_pending(*old(self), *final(self)),
            same_mode_prompt(*old(self), *final(self)),
    {
        self.old_posx = self.file_posx;
        self.old_posy = self.file_posy;
    }

    /// Moves the screen cursor row by the visual distance the logical cursor
    /// travelled since the last frame, holding at the window boundary when
    /// the unclamped row would leave the screen, and recomputes the screen
    /// column.
    pub fn update_cursor(&mut self)
        requires
            old(self).wf(),
            old(self).visualtext@ == layout_spec(old(self).text@, old(self).width),
        ensures
            final(self).wf(),
            final(self).cursor_posy as int == clamp_row(
                old(self).cursor_posy + vis_row(
                    old(self).text@,
                    old(self).width,
                    old(self).file_posy as int,
                    old(self).file_posx as int,
                ) - vis_row(
                    old(self).text@,
                    old(self).width,
                    old(self).old_posy as int,
                    old(self).old_posx as int,
                ),
                old(self).height,
            ),
            final(self).cursor_posx as int == old(self).file_posx as int % old(
                self,
            ).width as int,
            final(self).visualtext@ == old(self).visualtext@,
            same_buffer(*old(self), *final(self)),
            same_geometry(*old(self), *final(self)),
            same_tables(*old(self), *final(self)),
            same_oldpos(*old(self), *final(self)),
            same_pending(*old(self), *final(self)),
            same_mode_prompt(*old(self), *final(self)),
    {
        let vn_base = self.find_visual_line(self.file_posy);
        let vo_base = self.find_visual_line(self.old_posy);
        let vn: u128 = vn_base as u128 + (self.file_posx / self.width) as u128;
        let vo: u128 = vo_base as u128 + (self.old_posx / self.width) as u128;
        let c: i128 = self.cursor_posy as i128 + vn as i128 - vo as i128;
        let newy: usize = if c < 0 {
            0
        } else if c >= self.height as i128 {
            self.height - 1
        } else {
            c as usize
        };
        self.cursor_posy = newy;
        self.cursor_posx = self.file_posx % self.width;
    }

    /// The visible slice of the visual text: the window of rows around the
    /// cursor, each rendered as the characters of its segment.  In command
    /// mode the window gives up its last row to the prompt.
    pub fn get_view_port(&self) -> (rows: Vec<Vec<char>>)
        requires
            self.wf(),
            self.visualtext@ == layout_spec(self.text@, self.width),
        ensures
            ({
                let segs = self.visualtext@;
                let vc = vis_row(
                    self.text@,
                    self.width,
                    self.file_posy as int,
                    self.file_posx as int,
                );
                let top = if vc >= self.cursor_posy {
                    vc - self.cursor_posy
                } else {
                    0
                };
                let bottom = if segs.len() < top + self.height {
                    segs.len() as int
                } else {
                    top + self.height
                };
                let count = if self.mode == Mode::Command && bottom - top > self.height - 1 {
                    self.height - 1
                } else {
                    bottom - top
                };
                &&& rows@.len() == count
                &&& forall|i: int|
                    0 <= i < count ==> (#[trigger] rows@[i])@ == self.text@[segs[top
                        + i].source_line as int]@.subrange(
                        segs[top + i].start as int,
                        segs[top + i].end as int,
                    )
            }),
    {
        let vbase = self.find_visual_line(self.file_posy);
        proof {
            assert(vstd::std_specs::vec::spec_vec_len(&self.text) == self.text@.len());
            assert(vstd::std_specs::vec::spec_vec_len(&self.visualtext) == self.visualtext@.len());
            assert(vstd::std_specs::vec::spec_vec_len(&self.text@[self.file_posy as int])
                == self.text@[self.file_posy as int]@.len());
            lemma_layout_structure(self.text@, self.width, self.file_posy as int);
            lemma_line_segments_from_partition(
                self.file_posy,
                0,
                self.text@[self.file_posy as int]@.len() as usize,
                self.width,
            );
            vstd::arithmetic::div_mod::lemma_div_is_ordered(
                self.file_posx as int,
                self.text@[self.file_posy as int]@.len() as int,
                self.width as int,
            );
            lemma_layout_valid(self.text@, self.width);
            assert(((self.file_posx as int) / (self.width as int)) <= ((self.text@[self.file_posy as int]@.len() as int)
                / (self.width as int)));
            assert(vbase + ((self.file_posx as int) / (self.width as int)) < (self.visualtext@.len() as int));
        }
        let vc = vbase + self.file_posx / self.width;
        let top = if vc >= self.cursor_posy {
            vc - self.cursor_posy
        } else {
            0
        };
        let total = self.visualtext.len();
        let bottom = if total - top < self.height {
            total
        } else {
            top + self.height
        };
        let mut rows: Vec<Vec<char>> = Vec::new();
        let mut k: usize = top;
        while k < bottom
            invariant
                self.wf(),
                self.visualtext@ == layout_spec(self.text@, self.width),
                top <= k <= bottom,
                bottom <= self.visualtext@.len(),
                rows@.len() == k - top,
                forall|i: int|
                    0 <= i < k - top ==> (#[trigger] rows@[i])@ == self.text@[self.visualtext@[top
                        + i].source_line as int]@.subrange(
                        self.visualtext@[top + i].start as int,
                        self.visualtext@[top + i].end as int,
                    ),
            decreases bottom - k,
        {
            proof {
                assert(vstd::std_specs::vec::spec_vec_len(&self.text) == self.text@.len());
                lemma_layout_valid(self.text@, self.width);
            }
            let seg = self.visualtext[k];
            let row = copy_range(&self.text[seg.source_line], seg.start, seg.end);
            rows.push(row);
            k = k + 1;
        }
        if self.mode == Mode::Command {
            rows.truncate(self.height - 1);
        }
        rows
    }

    /// The prompt row shown in command mode: a colon followed by the prompt
    /// buffer; no row in any other mode.
    pub fn command_prompt_line(&self) -> (r: Option<Vec<char>>)
        ensures
            match r {
                Some(v) => self.mode == Mode::Command && v@ == seq![':'] + self.prompbuffer@,
                None => self.mode != Mode::Command,
            },
    {
        if self.mode == Mode::Command {
            let mut v: Vec<char> = Vec::new();
            v.push(':');
            let mut rest = copy_range(&self.prompbuffer, 0, self.prompbuffer.len());
            v.append(&mut rest);
            proof {
                assert(v@ =~= seq![':'] + self.prompbuffer@);
            }
            Some(v)
        } else {
            None
        }
    }

    /// Performs one dispatched keybind action against the editor state and
    /// reports the effect the shell must perform.
    pub fn apply_action(&mut self, a: KeyAction, pressed: &Vec<Token>) -> (eff: Effect)
        requires
            old(self).wf(),
        ensures
            final(self).wf(),
            action_transition(*old(self), *final(self), a, pressed@, eff),
            same_pending(*old(self), *final(self)),
    {
        match a {
            KeyAction::InsertChar => {
                if pressed.len() > 0 {
                    if let Token::Ch(c) = pressed[0] {
                        self.insert_char(c);
                    }
                }
                Effect::Nothing
            },
            KeyAction::BreakLine => {
                self.split_line();
                Effect::Nothing
            },
            KeyAction::DeleteBack => {
                self.delete_char_before();
                Effect::Nothing
            },
            KeyAction::EnterNormal => {
                self.mode = Mode::Normal;
                Effect::Nothing
            },
            KeyAction::EnterInsert => {
                self.mode = Mode::Insert;
                Effect::Nothing
            },
            KeyAction::EnterCommand => {
                self.mode = Mode::Command;
                Effect::Nothing
            },
            KeyAction::Quit => Effect::Quit,
            KeyAction::Save => {
                match &self.filename {
                    Some(name) => {
                        let f = name.clone();
                        let contents = self.to_text('\n');
                        Effect::Save { filename: f, contents }
                    },
                    None => Effect::Nothing,
                }
            },
            KeyAction::CursorDown => {
                if self.file_posy != self.text.len() - 1 {
                    self.file_posy = self.file_posy + 1;
                    let x = self.file_posx;
                    self.update_x(x);
                }
                Effect::Nothing
            },
            KeyAction::CursorUp => {
                if self.file_posy != 0 {
                    self.file_posy = self.file_posy - 1;
                    let x = self.file_posx;
                    self.update_x(x);
                }
                Effect::Nothing
            },
            KeyAction::CursorLeft => {
                if self.file_posx != 0 {
                    let x = self.file_posx;
                    self.update_x(x - 1);
                }
                Effect::Nothing
            },
            KeyAction::CursorRight => {
                let x = self.file_posx;
                if x < self.text[self.file_posy].len() {
                    self.update_x(x + 1);
                }
                Effect::Nothing
            },
            KeyAction::PromptAppend => {
                if pressed.len() > 0 {
                    if let Token::Ch(c) = pressed[0] {
                        self.prompbuffer.push(c);
                    }
                }
                Effect::Nothing
            },
            KeyAction::PromptBack => {
                let _popped = self.prompbuffer.pop();
                proof {
                    if old(self).prompbuffer@.len() > 0 {
                        assert(self.prompbuffer@ =~= old(self).prompbuffer@.drop_last());
                    }
                }
                Effect::Nothing
            },
            KeyAction::PromptCancel => {
                self.prompbuffer.clear();
                self.mode = Mode::Normal;
                Effect::Nothing
            },
            KeyAction::PromptSubmit => {
                let eff = self.execute_command();
                self.prompbuffer.clear();
                self.mode = Mode::Normal;
                eff
            },
        }
    }

    /// Feeds one key token to the resolver and carries out its decision: a
    /// completed pattern dispatches its action, an eliminated sequence is
    /// silently abandoned, and in both cases the next token starts a fresh
    /// sequence.
    pub fn execute_keybind(&mut self, tok: Token) -> (eff: Effect)
        requires
            old(self).wf(),
        ensures
            final(self).wf(),
            keystroke_transition(*old(self), *final(self), tok, eff),
    {
        let r = resolve_token(&self.keybinds, &self.pending, tok);
        match r {
            Resolution::NoMatch => {
                self.pending = new_sequence(&self.keybinds, self.mode);
                Effect::Nothing
            },
            Resolution::Pending(ms) => {
                self.pending = ms;
                Effect::Nothing
            },
            Resolution::Dispatch(f, pressed) => {
                let eff = self.apply_action(f, &pressed);
                self.pending = new_sequence(&self.keybinds, self.mode);
                eff
            },
        }
    }

    /// Handles one input event: a resize replaces the display dimensions,
    /// and a key token goes through the keybind resolver.
    pub fn process_event(&mut self, e: Event) -> (eff: Effect)
        requires
            old(self).wf(),
        ensures
            final(self).wf(),
            match e {
                Event::Resize(w, h) => resize_transition(*old(self), *final(self), w, h) && eff
                    is Nothing,
                Event::Key(t) => keystroke_transition(*old(self), *final(self), t, eff),
            },
    {
        match e {
            Event::Resize(w, h) => {
                self.resize(w, h);
                Effect::Nothing
            },
            Event::Key(t) => self.execute_keybind(t),
        }
    }

    /// Replaces the display dimensions (never by zero), pulls the cursor row
    /// back on screen if the window shrank, and abandons the key sequence in
    /// progress.
    pub fn resize(&mut self, w: usize, h: usize)
        requires
            old(self).wf(),
        ensures
            final(self).wf(),
            resize_transition(*old(self), *final(self), w, h),
    {
        self.width = if w >= 1 {
            w
        } else {
            1
        };
        self.height = if h >= 1 {
            h
        } else {
            1
        };
        if self.cursor_posy >= self.height {
            self.cursor_posy = self.height - 1;
        }
        let fresh = new_sequence(&self.keybinds, self.mode);
        self.pending = fresh;
    }
}

} // verus!
