use modal_edit::resolver::{
    length_of_keybind, new_sequence, resolve_token, KeyAction, Keybind, Mode, PatToken,
    Resolution, Token,
};

fn bind(mode: Mode, key: &[PatToken], function: KeyAction) -> Keybind {
    Keybind { mode, key: key.to_vec(), function }
}

#[test]
fn specific_binding_preempts_the_wildcard() {
    // A normal-mode table holding the pattern "w" and the pattern "<any>":
    // pressing `w` dispatches the "w" binding, not the wildcard.
    let table = vec![
        bind(Mode::Normal, &[PatToken::Ch('w')], KeyAction::Save),
        bind(Mode::Normal, &[PatToken::Any], KeyAction::InsertChar),
    ];
    let st = new_sequence(&table, Mode::Normal);
    match resolve_token(&table, &st, Token::Ch('w')) {
        Resolution::Dispatch(f, pressed) => {
            assert_eq!(f, KeyAction::Save);
            assert_eq!(pressed, vec![Token::Ch('w')]);
        }
        _ => panic!("expected a dispatch"),
    }
}

#[test]
fn wildcard_fires_when_nothing_specific_matches() {
    let table = vec![
        bind(Mode::Normal, &[PatToken::Ch('w')], KeyAction::Save),
        bind(Mode::Normal, &[PatToken::Any], KeyAction::InsertChar),
    ];
    let st = new_sequence(&table, Mode::Normal);
    match resolve_token(&table, &st, Token::Ch('z')) {
        Resolution::Dispatch(f, pressed) => {
            assert_eq!(f, KeyAction::InsertChar);
            assert_eq!(pressed, vec![Token::Ch('z')]);
        }
        _ => panic!("expected the wildcard dispatch"),
    }
}

#[test]
fn failed_sequence_resets_cleanly() {
    // With the patterns "ab" and "ac", pressing `a` then `x` yields no
    // dispatch, and the next keystroke starts a fresh sequence rather than a
    // stuck partial state.
    let table = vec![
        bind(Mode::Normal, &[PatToken::Ch('a'), PatToken::Ch('b')], KeyAction::Save),
        bind(Mode::Normal, &[PatToken::Ch('a'), PatToken::Ch('c')], KeyAction::Quit),
    ];
    let st = new_sequence(&table, Mode::Normal);
    let pending = match resolve_token(&table, &st, Token::Ch('a')) {
        Resolution::Pending(ms) => ms,
        _ => panic!("both patterns should still be viable after `a`"),
    };
    assert_eq!(pending.candidates, vec![0, 1]);
    assert_eq!(pending.consumed, 1);
    match resolve_token(&table, &pending, Token::Ch('x')) {
        Resolution::NoMatch => {}
        _ => panic!("`ax` matches nothing and must abort silently"),
    }
    // A fresh sequence afterwards resolves normally.
    let st = new_sequence(&table, Mode::Normal);
    let pending = match resolve_token(&table, &st, Token::Ch('a')) {
        Resolution::Pending(ms) => ms,
        _ => panic!("both patterns should still be viable after `a`"),
    };
    match resolve_token(&table, &pending, Token::Ch('c')) {
        Resolution::Dispatch(f, pressed) => {
            assert_eq!(f, KeyAction::Quit);
            assert_eq!(pressed, vec![Token::Ch('a'), Token::Ch('c')]);
        }
        _ => panic!("`ac` must dispatch its binding"),
    }
}

#[test]
fn named_key_beats_the_wildcard_in_insert_mode() {
    let table = vec![
        bind(Mode::Insert, &[PatToken::Any], KeyAction::InsertChar),
        bind(Mode::Insert, &[PatToken::Enter], KeyAction::BreakLine),
    ];
    let st = new_sequence(&table, Mode::Insert);
    match resolve_token(&table, &st, Token::Enter) {
        Resolution::Dispatch(f, _) => assert_eq!(f, KeyAction::BreakLine),
        _ => panic!("expected the named-key dispatch"),
    }
}

#[test]
fn candidates_are_scoped_to_the_mode() {
    let table = vec![
        bind(Mode::Insert, &[PatToken::Ch('i')], KeyAction::InsertChar),
        bind(Mode::Normal, &[PatToken::Ch('i')], KeyAction::EnterInsert),
    ];
    let st = new_sequence(&table, Mode::Normal);
    assert_eq!(st.candidates, vec![1]);
    match resolve_token(&table, &st, Token::Ch('i')) {
        Resolution::Dispatch(f, _) => assert_eq!(f, KeyAction::EnterInsert),
        _ => panic!("the normal-mode binding must dispatch"),
    }
}

#[test]
fn length_of_keybind_counts_units() {
    assert_eq!(length_of_keybind(""), 0);
    assert_eq!(length_of_keybind("w"), 1);
    assert_eq!(length_of_keybind("ab"), 2);
    assert_eq!(length_of_keybind("<any>"), 1);
    assert_eq!(length_of_keybind("<cr>"), 1);
    assert_eq!(length_of_keybind("a<cr>b"), 3);
    assert_eq!(length_of_keybind("<esc><back>"), 2);
}
