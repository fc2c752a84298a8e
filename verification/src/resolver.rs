//! The modal keybind resolver: incrementally matches a stream of input
//! tokens against a table of mode-scoped key patterns, narrowing a candidate
//! set until exactly one pattern is satisfied, then reports which action to
//! dispatch.  Specific patterns take priority over patterns that end in the
//! wildcard token.

use vstd::prelude::*;

verus! {

/// The editor's mode.  It governs which keybinds are eligible and how raw
/// characters are interpreted.
#[derive(Clone, Copy, PartialEq, Eq, Structural, Debug)]
pub enum Mode {
    Normal,
    Insert,
    Command,
}

/// One discrete input unit: a printable character or a named key.
#[derive(Clone, Copy, PartialEq, Eq, Structural, Debug)]
pub enum Token {
    Ch(char),
    Enter,
    Back,
    Esc,
}

/// One unit of a key pattern: a literal character, a named key, or the
/// wildcard `Any`, which matches exactly one arbitrary input token.
#[derive(Clone, Copy, PartialEq, Eq, Structural, Debug)]
pub enum PatToken {
    Ch(char),
    Enter,
    Back,
    Esc,
    Any,
}

/// The identifier of the action a keybind dispatches.  The keybind table is
/// plain data; an action identifier is interpreted by the editor state.
#[derive(Clone, Copy, PartialEq, Eq, Structural, Debug)]
pub enum KeyAction {
    InsertChar,
    BreakLine,
    DeleteBack,
    EnterNormal,
    EnterInsert,
    EnterCommand,
    Quit,
    Save,
    CursorDown,
    CursorUp,
    CursorLeft,
    CursorRight,
    PromptAppend,
    PromptBack,
    PromptCancel,
    PromptSubmit,
}

/// One keybinding: a pattern of tokens, scoped to exactly one mode, bound to
/// an action.
pub struct Keybind {
    pub mode: Mode,
    pub key: Vec<PatToken>,
    pub function: KeyAction,
}

/// Whether a pattern token accepts an input token.
pub open spec fn pat_matches(p: PatToken, t: Token) -> bool {
    match p {
        PatToken::Ch(c) => t == Token::Ch(c),
        PatToken::Enter => t == Token::Enter,
        PatToken::Back => t == Token::Back,
        PatToken::Esc => t == Token::Esc,
        PatToken::Any => true,
    }
}

/// Whether a pattern token accepts an input token.
pub fn token_matches(p: PatToken, t: Token) -> (b: bool)
    ensures
        b == pat_matches(p, t),
{
    match p {
        PatToken::Ch(c) => t == Token::Ch(c),
        PatToken::Enter => t == Token::Enter,
        PatToken::Back => t == Token::Back,
        PatToken::Esc => t == Token::Esc,
        PatToken::Any => true,
    }
}

/// A keybind is "specific" when its pattern does not end in the wildcard
/// token; specific keybinds pre-empt wildcard ones.
pub open spec fn is_specific(kb: Keybind) -> bool {
    kb.key@.len() == 0 || kb.key@.last() != PatToken::Any
}

/// Whether candidate `c` of the table also accepts `tok` as its next token,
/// `consumed` tokens into the current sequence.
pub open spec fn kb_matches_at(table: Seq<Keybind>, c: int, consumed: int, tok: Token) -> bool {
    consumed < table[c].key@.len() && pat_matches(table[c].key@[consumed], tok)
}

/// The candidate filter applied on each incoming token.
pub open spec fn match_pred(table: Seq<Keybind>, consumed: int, tok: Token) -> spec_fn(usize) -> bool {
    |c: usize| kb_matches_at(table, c as int, consumed, tok)
}

/// The candidates that survive one more token.
pub open spec fn survivors(table: Seq<Keybind>, cands: Seq<usize>, consumed: int, tok: Token) -> Seq<usize> {
    cands.filter(match_pred(table, consumed, tok))
}

/// The filter that keeps only specific candidates.
pub open spec fn specific_pred(table: Seq<Keybind>) -> spec_fn(usize) -> bool {
    |c: usize| is_specific(table[c as int])
}

/// The subset of candidates whose patterns do not end in the wildcard.
pub open spec fn specific_of(table: Seq<Keybind>, cands: Seq<usize>) -> Seq<usize> {
    cands.filter(specific_pred(table))
}

/// The candidates scoped to one mode, in table order: the start of a fresh
/// key sequence.
pub open spec fn mode_pred(table: Seq<Keybind>, mode: Mode) -> spec_fn(usize) -> bool {
    |c: usize| table[c as int].mode == mode
}

/// All indices of the table whose keybind is scoped to `mode`.
pub open spec fn fresh_candidates(table: Seq<Keybind>, mode: Mode) -> Seq<usize> {
    Seq::new(table.len(), |i: int| i as usize).filter(mode_pred(table, mode))
}

/// The resolver's state during one key sequence: the patterns still
/// compatible with the keystrokes seen so far, how many tokens the sequence
/// has consumed, and the literal tokens pressed (the argument handed to the
/// dispatched action).
pub struct MatchState {
    pub candidates: Vec<usize>,
    pub consumed: usize,
    pub pressed: Vec<Token>,
}

impl MatchState {
    /// Candidates index into the table, and one token was pressed per
    /// consumed unit.
    pub open spec fn wf(self, table: Seq<Keybind>) -> bool {
        &&& forall|i: int|
            0 <= i < self.candidates@.len() ==> (#[trigger] self.candidates@[i]) < table.len()
        &&& self.pressed@.len() == self.consumed
    }
}

/// What one incoming token did to the sequence: dispatched an action with
/// the pressed tokens as argument, left several patterns still viable, or
/// eliminated every candidate (the sequence is silently abandoned).
pub enum Resolution {
    Dispatch(KeyAction, Vec<Token>),
    Pending(MatchState),
    NoMatch,
}

/// The resolver's full answer for one token, from the matching rules: drop
/// the candidates that do not accept the token; a sole surviving specific
/// candidate that has consumed its whole pattern dispatches first; then a
/// sole survivor of any kind that is complete; no survivors abandon the
/// sequence; otherwise the sequence stays pending.
pub open spec fn resolution_spec(table: Seq<Keybind>, st: MatchState, tok: Token, r: Resolution) -> bool {
    let surv = survivors(table, st.candidates@, st.consumed as int, tok);
    let spec1 = specific_of(table, surv);
    let pressed2 = st.pressed@.push(tok);
    let done = st.consumed + 1;
    if surv.len() == 0 {
        r is NoMatch
    } else if spec1.len() == 1 && table[spec1[0] as int].key@.len() == done {
        r matches Resolution::Dispatch(f, p) && f == table[spec1[0] as int].function && p@
            == pressed2
    } else if surv.len() == 1 && table[surv[0] as int].key@.len() == done {
        r matches Resolution::Dispatch(f, p) && f == table[surv[0] as int].function && p@
            == pressed2
    } else {
        r matches Resolution::Pending(ms) && ms.candidates@ == surv && ms.consumed == done
            && ms.pressed@ == pressed2
    }
}

/// Begins a fresh key sequence: every keybind of the current mode is a
/// candidate and nothing has been consumed.
pub fn new_sequence(table: &Vec<Keybind>, mode: Mode) -> (st: MatchState)
    ensures
        st.candidates@ == fresh_candidates(table@, mode),
        st.consumed == 0,
        st.pressed@ == Seq::<Token>::empty(),
        st.wf(table@),
{
    let ghost pred = mode_pred(table@, mode);
    let mut candidates: Vec<usize> = Vec::new();
    let mut i: usize = 0;
    while i < table.len()
        invariant
            i <= table@.len(),
            candidates@ == Seq::new(i as nat, |j: int| j as usize).filter(pred),
            pred == mode_pred(table@, mode),
            forall|j: int|
                0 <= j < candidates@.len() ==> (#[trigger] candidates@[j]) < table@.len(),
        decreases table@.len() - i,
    {
        proof {
            reveal(Seq::<_>::filter);
            let prefix = Seq::new((i + 1) as nat, |j: int| j as usize);
            assert(prefix.drop_last() =~= Seq::new(i as nat, |j: int| j as usize));
            assert(prefix.last() == i as usize);
        }
        if table[i].mode == mode {
            candidates.push(i);
        }
        i = i + 1;
    }
    MatchState { candidates, consumed: 0, pressed: Vec::new() }
}

/// Feeds one input token to a pending sequence and reports what it decided.
pub fn resolve_token(table: &Vec<Keybind>, st: &MatchState, tok: Token) -> (r: Resolution)
    requires
        st.wf(table@),
    ensures
        resolution_spec(table@, *st, tok, r),
        (r matches Resolution::Pending(ms) ==> ms.wf(table@)),
{
    let ghost pred = match_pred(table@, st.consumed as int, tok);
    let mut pressed2: Vec<Token> = Vec::new();
    let mut i: usize = 0;
    while i < st.pressed.len()
        invariant
            i <= st.pressed@.len(),
            pressed2@ == st.pressed@.subrange(0, i as int),
        decreases st.pressed@.len() - i,
    {
        pressed2.push(st.pressed[i]);
        proof {
            assert(pressed2@ =~= st.pressed@.subrange(0, i + 1));
        }
        i = i + 1;
    }
    proof {
        assert(st.pressed@.subrange(0, st.pressed@.len() as int) =~= st.pressed@);
    }
    pressed2.push(tok);
    let done = pressed2.len();

    let mut filtered: Vec<usize> = Vec::new();
    let mut i: usize = 0;
    while i < st.candidates.len()
        invariant
            i <= st.candidates@.len(),
            st.wf(table@),
            pred == match_pred(table@, st.consumed as int, tok),
            filtered@ == st.candidates@.subrange(0, i as int).filter(pred),
            forall|j: int|
                0 <= j < filtered@.len() ==> (#[trigger] filtered@[j]) < table@.len(),
        decreases st.candidates@.len() - i,
    {
        let c = st.candidates[i];
        let hit = st.consumed < table[c].key.len() && token_matches(table[c].key[st.consumed], tok);
        proof {
            reveal(Seq::<_>::filter);
            assert(st.candidates@.subrange(0, i + 1).drop_last() =~= st.candidates@.subrange(
                0,
                i as int,
            ));
            assert(st.candidates@.subrange(0, i + 1).last() == c);
        }
        if hit {
            filtered.push(c);
        }
        i = i + 1;
    }
    proof {
        assert(st.candidates@.subrange(0, st.candidates@.len() as int) =~= st.candidates@);
    }
    let ghost surv = survivors(table@, st.candidates@, st.consumed as int, tok);
    assert(filtered@ == surv);

    if filtered.len() == 0 {
        return Resolution::NoMatch;
    }

    let ghost spec_pred = specific_pred(table@);
    let mut specific: Vec<usize> = Vec::new();
    let mut i: usize = 0;
    while i < filtered.len()
        invariant
            i <= filtered@.len(),
            spec_pred == specific_pred(table@),
            forall|j: int|
                0 <= j < filtered@.len() ==> (#[trigger] filtered@[j]) < table@.len(),
            specific@ == filtered@.subrange(0, i as int).filter(spec_pred),
            forall|j: int|
                0 <= j < specific@.len() ==> (#[trigger] specific@[j]) < table@.len(),
        decreases filtered@.len() - i,
    {
        let c = filtered[i];
        let kb = &table[c];
        let plain = kb.key.len() == 0 || !matches!(kb.key[kb.key.len() - 1], PatToken::Any);
        proof {
            reveal(Seq::<_>::filter);
            assert(filtered@.subrange(0, i + 1).drop_last() =~= filtered@.subrange(0, i as int));
            assert(filtered@.subrange(0, i + 1).last() == c);
            assert(plain == is_specific(table@[c as int]));
        }
        if plain {
            specific.push(c);
        }
        i = i + 1;
    }
    proof {
        assert(filtered@.subrange(0, filtered@.len() as int) =~= filtered@);
    }
    assert(specific@ == specific_of(table@, surv));

    if specific.len() == 1 {
        let c = specific[0];
        if table[c].key.len() == done {
            return Resolution::Dispatch(table[c].function, pressed2);
        }
    }
    if filtered.len() == 1 {
        let c = filtered[0];
        if table[c].key.len() == done {
            return Resolution::Dispatch(table[c].function, pressed2);
        }
    }
    Resolution::Pending(MatchState { candidates: filtered, consumed: done, pressed: pressed2 })
}

/// The length of a keybind pattern written as text, counted with a flag that
/// is cleared by `<` and set again by `>`: each character outside angle
/// brackets is one unit, and each bracketed token such as `<cr>` or `<any>`
/// is one unit regardless of its spelling.
pub open spec fn keybind_len(s: Seq<char>, countup: bool) -> int
    decreases s.len(),
{
    if s.len() == 0 {
        0
    } else if s[0] == '<' {
        keybind_len(s.drop_first(), false)
    } else if s[0] == '>' {
        1 + keybind_len(s.drop_first(), true)
    } else if countup {
        1 + keybind_len(s.drop_first(), countup)
    } else {
        keybind_len(s.drop_first(), countup)
    }
}

/// Counts the units of a keybind pattern written as text: literal characters
/// count one each, and a bracketed token such as `<cr>` or `<any>` counts
/// one in all, however long its bracket text.  Pattern completion detection
/// relies on this count being computed identically for declared patterns and
/// for pressed text.
pub fn length_of_keybind(key: &str) -> (n: usize)
    ensures
        n == keybind_len(key@, true),
{
    let len = key.unicode_len();
    let mut countup = true;
    let mut result: usize = 0;
    let mut i: usize = 0;
    proof {
        assert(key@.skip(0) =~= key@);
    }
    while i < len
        invariant
            i <= len,
            len == key@.len(),
            result <= i,
            keybind_len(key@, true) == result + keybind_len(key@.skip(i as int), countup),
        decreases len - i,
    {
        let c = key.get_char(i);
        proof {
            assert(key@.skip(i as int).drop_first() =~= key@.skip(i + 1));
            assert(key@.skip(i as int)[0] == key@[i as int]);
        }
        if c == '<' {
            countup = false;
        } else if c == '>' {
            result = result + 1;
            countup = true;
        } else if countup {
            result = result + 1;
        }
        i = i + 1;
    }
    proof {
        assert(key@.skip(len as int) =~= Seq::<char>::empty());
    }
    result
}

} // verus!

