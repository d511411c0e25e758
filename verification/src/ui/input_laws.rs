//! What keys are for.

use vstd::prelude::*;
use vstd::string::*;

use crate::ui::input::{
    action_label, action_shortcut, meaning, InputAction, InputMode, KeyCode, KeyEvent,
    KeyEventKind, KeyModifiers, MediaKeyCode, SemanticAction, TextEntryContext,
};

verus! {

/// The press of a key with no other key held.
pub open spec fn bare(code: KeyCode) -> KeyEvent {
    KeyEvent {
        code,
        modifiers: KeyModifiers { shift: false, control: false, alt: false, other: false },
        kind: KeyEventKind::Press,
    }
}

/// The press of a key with shift held.
pub open spec fn with_shift(code: KeyCode) -> KeyEvent {
    KeyEvent {
        code,
        modifiers: KeyModifiers { shift: true, control: false, alt: false, other: false },
        kind: KeyEventKind::Press,
    }
}

/// How a key is named where keys are shown. A character stands for itself.
pub open spec fn key_name(event: KeyEvent) -> Seq<char> {
    if event == with_shift(event.code) {
        match event.code {
            KeyCode::Left => "Shift+Left"@,
            KeyCode::Right => "Shift+Right"@,
            KeyCode::BackTab => "Shift+Tab"@,
            _ => Seq::empty(),
        }
    } else {
        match event.code {
            KeyCode::Char(' ') => "Space"@,
            KeyCode::Char(character) => seq![character],
            KeyCode::F(7) => "F7"@,
            KeyCode::F(8) => "F8"@,
            KeyCode::F(9) => "F9"@,
            KeyCode::Media(MediaKeyCode::PlayPause) => "Media Play/Pause"@,
            KeyCode::Media(MediaKeyCode::TrackNext) => "Media Next"@,
            KeyCode::Media(MediaKeyCode::TrackPrevious) => "Media Previous"@,
            KeyCode::Up => "↑"@,
            KeyCode::Down => "↓"@,
            KeyCode::Left => "←"@,
            KeyCode::Right => "→"@,
            KeyCode::Tab => "Tab"@,
            KeyCode::Esc => "Esc"@,
            KeyCode::Enter => "Enter"@,
            KeyCode::Backspace => "Backspace"@,
            _ => Seq::empty(),
        }
    }
}

/// The names of keys, one behind the other.
pub open spec fn key_names(events: Seq<KeyEvent>) -> Seq<char>
    decreases events.len(),
{
    if events.len() == 0 {
        Seq::empty()
    } else if events.len() == 1 {
        key_name(events[0])
    } else {
        key_names(events.drop_last()) + " / "@ + key_name(events.last())
    }
}

/// Where the keys of an action have effect: deleting is for text alone.
pub open spec fn mode_for(action: SemanticAction) -> InputMode {
    if action == SemanticAction::DeleteBackward {
        InputMode::TextEntry(TextEntryContext::Search)
    } else {
        InputMode::Normal
    }
}

/// Whether these are keys that the shortcut text of an action names, all of them and in
/// its order, and each of them does the action.
pub open spec fn are_its_keys(action: SemanticAction, events: Seq<KeyEvent>) -> bool {
    &&& events.len() > 0
    &&& action_shortcut(action) == key_names(events)
    &&& forall|i: int|
        0 <= i < events.len() ==> {
            &&& key_name(#[trigger] events[i]).len() > 0
            &&& meaning(mode_for(action), events[i]) == Some(InputAction::Semantic(action))
        }
}

proof fn lemma_one_key(action: SemanticAction, event: KeyEvent)
    requires
        key_name(event).len() > 0,
        action_shortcut(action) == key_name(event),
        meaning(mode_for(action), event) == Some(InputAction::Semantic(action)),
    ensures
        are_its_keys(action, seq![event]),
{
}

proof fn lemma_two_keys(action: SemanticAction, first: KeyEvent, second: KeyEvent)
    requires
        key_name(first).len() > 0,
        key_name(second).len() > 0,
        action_shortcut(action) == key_name(first) + " / "@ + key_name(second),
        meaning(mode_for(action), first) == Some(InputAction::Semantic(action)),
        meaning(mode_for(action), second) == Some(InputAction::Semantic(action)),
    ensures
        are_its_keys(action, seq![first, second]),
{
    reveal_with_fuel(key_names, 2);
    assert(seq![first, second].drop_last() =~= seq![first]);
}

proof fn lemma_three_keys(
    action: SemanticAction,
    first: KeyEvent,
    second: KeyEvent,
    third: KeyEvent,
)
    requires
        key_name(first).len() > 0,
        key_name(second).len() > 0,
        key_name(third).len() > 0,
        action_shortcut(action) == key_name(first) + " / "@ + key_name(second) + " / "@ + key_name(
            third,
        ),
        meaning(mode_for(action), first) == Some(InputAction::Semantic(action)),
        meaning(mode_for(action), second) == Some(InputAction::Semantic(action)),
        meaning(mode_for(action), third) == Some(InputAction::Semantic(action)),
    ensures
        are_its_keys(action, seq![first, second, third]),
{
    reveal_with_fuel(key_names, 3);
    assert(seq![first, second, third].drop_last() =~= seq![first, second]);
    assert(seq![first, second].drop_last() =~= seq![first]);
}

/// The keys that are shown for an action do that action: its shortcut text is made up
/// of the names of keys, and each of these keys, pressed, means the action.
pub proof fn law_shown_keys_do_the_action(action: SemanticAction)
    ensures
        exists|events: Seq<KeyEvent>| are_its_keys(action, events),
{
    match action {
        SemanticAction::Quit => {
            reveal_strlit("q");
            assert(action_shortcut(action) =~= key_name(bare(KeyCode::Char('q'))));
            lemma_one_key(action, bare(KeyCode::Char('q')));
        },
        SemanticAction::ToggleHelp => {
            reveal_strlit("?");
            assert(action_shortcut(action) =~= key_name(bare(KeyCode::Char('?'))));
            lemma_one_key(action, bare(KeyCode::Char('?')));
        },
        SemanticAction::OpenSearch => {
            reveal_strlit("/");
            assert(action_shortcut(action) =~= key_name(bare(KeyCode::Char('/'))));
            lemma_one_key(action, bare(KeyCode::Char('/')));
        },
        SemanticAction::OpenPalette => {
            reveal_strlit(":");
            assert(action_shortcut(action) =~= key_name(bare(KeyCode::Char(':'))));
            lemma_one_key(action, bare(KeyCode::Char(':')));
        },
        SemanticAction::TogglePlayback => {
            reveal_strlit("Space / F8 / Media Play/Pause");
            reveal_strlit("Space");
            reveal_strlit("F8");
            reveal_strlit("Media Play/Pause");
            reveal_strlit(" / ");
            assert(action_shortcut(action) =~= key_name(bare(KeyCode::Char(' '))) + " / "@ + key_name(bare(KeyCode::F(8))) + " / "@ + key_name(bare(KeyCode::Media(MediaKeyCode::PlayPause))));
            lemma_three_keys(action, bare(KeyCode::Char(' ')), bare(KeyCode::F(8)), bare(KeyCode::Media(MediaKeyCode::PlayPause)));
        },
        SemanticAction::NextTrack => {
            reveal_strlit("n / F9 / Media Next");
            reveal_strlit("F9");
            reveal_strlit("Media Next");
            reveal_strlit(" / ");
            assert(action_shortcut(action) =~= key_name(bare(KeyCode::Char('n'))) + " / "@ + key_name(bare(KeyCode::F(9))) + " / "@ + key_name(bare(KeyCode::Media(MediaKeyCode::TrackNext))));
            lemma_three_keys(action, bare(KeyCode::Char('n')), bare(KeyCode::F(9)), bare(KeyCode::Media(MediaKeyCode::TrackNext)));
        },
        SemanticAction::PreviousTrack => {
            reveal_strlit("p / F7 / Media Previous");
            reveal_strlit("F7");
            reveal_strlit("Media Previous");
            reveal_strlit(" / ");
            assert(action_shortcut(action) =~= key_name(bare(KeyCode::Char('p'))) + " / "@ + key_name(bare(KeyCode::F(7))) + " / "@ + key_name(bare(KeyCode::Media(MediaKeyCode::TrackPrevious))));
            lemma_three_keys(action, bare(KeyCode::Char('p')), bare(KeyCode::F(7)), bare(KeyCode::Media(MediaKeyCode::TrackPrevious)));
        },
        SemanticAction::ToggleFavorite => {
            reveal_strlit("f");
            assert(action_shortcut(action) =~= key_name(bare(KeyCode::Char('f'))));
            lemma_one_key(action, bare(KeyCode::Char('f')));
        },
        SemanticAction::SeekBackward => {
            reveal_strlit("Shift+Left");
            assert(action_shortcut(action) =~= key_name(with_shift(KeyCode::Left)));
            lemma_one_key(action, with_shift(KeyCode::Left));
        },
        SemanticAction::SeekForward => {
            reveal_strlit("Shift+Right");
            assert(action_shortcut(action) =~= key_name(with_shift(KeyCode::Right)));
            lemma_one_key(action, with_shift(KeyCode::Right));
        },
        SemanticAction::MoveUp => {
            reveal_strlit("↑ / k");
            reveal_strlit("↑");
            reveal_strlit(" / ");
            assert(action_shortcut(action) =~= key_name(bare(KeyCode::Up)) + " / "@ + key_name(bare(KeyCode::Char('k'))));
            lemma_two_keys(action, bare(KeyCode::Up), bare(KeyCode::Char('k')));
        },
        SemanticAction::MoveDown => {
            reveal_strlit("↓ / j");
            reveal_strlit("↓");
            reveal_strlit(" / ");
            assert(action_shortcut(action) =~= key_name(bare(KeyCode::Down)) + " / "@ + key_name(bare(KeyCode::Char('j'))));
            lemma_two_keys(action, bare(KeyCode::Down), bare(KeyCode::Char('j')));
        },
        SemanticAction::MoveLeft => {
            reveal_strlit("← / h");
            reveal_strlit("←");
            reveal_strlit(" / ");
            assert(action_shortcut(action) =~= key_name(bare(KeyCode::Left)) + " / "@ + key_name(bare(KeyCode::Char('h'))));
            lemma_two_keys(action, bare(KeyCode::Left), bare(KeyCode::Char('h')));
        },
        SemanticAction::MoveRight => {
            reveal_strlit("→ / l");
            reveal_strlit("→");
            reveal_strlit(" / ");
            assert(action_shortcut(action) =~= key_name(bare(KeyCode::Right)) + " / "@ + key_name(bare(KeyCode::Char('l'))));
            lemma_two_keys(action, bare(KeyCode::Right), bare(KeyCode::Char('l')));
        },
        SemanticAction::CycleFocusForward => {
            reveal_strlit("Tab");
            assert(action_shortcut(action) =~= key_name(bare(KeyCode::Tab)));
            lemma_one_key(action, bare(KeyCode::Tab));
        },
        SemanticAction::CycleFocusBackward => {
            reveal_strlit("Shift+Tab");
            assert(action_shortcut(action) =~= key_name(with_shift(KeyCode::BackTab)));
            lemma_one_key(action, with_shift(KeyCode::BackTab));
        },
        SemanticAction::VolumeUp => {
            reveal_strlit("+");
            assert(action_shortcut(action) =~= key_name(bare(KeyCode::Char('+'))));
            lemma_one_key(action, bare(KeyCode::Char('+')));
        },
        SemanticAction::VolumeDown => {
            reveal_strlit("-");
            assert(action_shortcut(action) =~= key_name(bare(KeyCode::Char('-'))));
            lemma_one_key(action, bare(KeyCode::Char('-')));
        },
        SemanticAction::ToggleShuffle => {
            reveal_strlit("s");
            assert(action_shortcut(action) =~= key_name(bare(KeyCode::Char('s'))));
            lemma_one_key(action, bare(KeyCode::Char('s')));
        },
        SemanticAction::CycleRepeat => {
            reveal_strlit("r");
            assert(action_shortcut(action) =~= key_name(bare(KeyCode::Char('r'))));
            lemma_one_key(action, bare(KeyCode::Char('r')));
        },
        SemanticAction::ToggleRadio => {
            reveal_strlit("e");
            assert(action_shortcut(action) =~= key_name(bare(KeyCode::Char('e'))));
            lemma_one_key(action, bare(KeyCode::Char('e')));
        },
        SemanticAction::MoveQueueItemUp => {
            reveal_strlit("[");
            assert(action_shortcut(action) =~= key_name(bare(KeyCode::Char('['))));
            lemma_one_key(action, bare(KeyCode::Char('[')));
        },
        SemanticAction::MoveQueueItemDown => {
            reveal_strlit("]");
            assert(action_shortcut(action) =~= key_name(bare(KeyCode::Char(']'))));
            lemma_one_key(action, bare(KeyCode::Char(']')));
        },
        SemanticAction::ConnectAccount => {
            reveal_strlit("a");
            assert(action_shortcut(action) =~= key_name(bare(KeyCode::Char('a'))));
            lemma_one_key(action, bare(KeyCode::Char('a')));
        },
        SemanticAction::LoadMore => {
            reveal_strlit("m");
            assert(action_shortcut(action) =~= key_name(bare(KeyCode::Char('m'))));
            lemma_one_key(action, bare(KeyCode::Char('m')));
        },
        SemanticAction::RecheckDependencies => {
            reveal_strlit("d");
            assert(action_shortcut(action) =~= key_name(bare(KeyCode::Char('d'))));
            lemma_one_key(action, bare(KeyCode::Char('d')));
        },
        SemanticAction::ChooseCountry => {
            reveal_strlit("c");
            assert(action_shortcut(action) =~= key_name(bare(KeyCode::Char('c'))));
            lemma_one_key(action, bare(KeyCode::Char('c')));
        },
        SemanticAction::ToggleLyrics => {
            reveal_strlit("L");
            assert(action_shortcut(action) =~= key_name(bare(KeyCode::Char('L'))));
            lemma_one_key(action, bare(KeyCode::Char('L')));
        },
        SemanticAction::ToggleQueuePanel => {
            reveal_strlit("Q");
            assert(action_shortcut(action) =~= key_name(bare(KeyCode::Char('Q'))));
            lemma_one_key(action, bare(KeyCode::Char('Q')));
        },
        SemanticAction::Cancel => {
            reveal_strlit("Esc");
            assert(action_shortcut(action) =~= key_name(bare(KeyCode::Esc)));
            lemma_one_key(action, bare(KeyCode::Esc));
        },
        SemanticAction::DeleteBackward => {
            reveal_strlit("Backspace");
            assert(action_shortcut(action) =~= key_name(bare(KeyCode::Backspace)));
            lemma_one_key(action, bare(KeyCode::Backspace));
        },
        SemanticAction::Submit => {
            reveal_strlit("Enter");
            assert(action_shortcut(action) =~= key_name(bare(KeyCode::Enter)));
            lemma_one_key(action, bare(KeyCode::Enter));
        },
    }
}

/// Whether a key means an action where keys are commands.
pub open spec fn does(event: KeyEvent, action: SemanticAction) -> bool {
    meaning(InputMode::Normal, event) == Some(InputAction::Semantic(action))
}

/// Whether a character is typed with no key held.
pub open spec fn types(event: KeyEvent, character: char) -> bool {
    event.code == KeyCode::Char(character) && !event.modifiers.shift && !event.modifiers.control
        && !event.modifiers.alt && !event.modifiers.other
}

/// Whether a character is typed, with shift where the keyboard asks for it.
pub open spec fn types_shifted(event: KeyEvent, character: char) -> bool {
    event.code == KeyCode::Char(character) && !event.modifiers.control && !event.modifiers.alt
        && !event.modifiers.other
}

/// Whether a key is hit with no key held.
pub open spec fn hits(event: KeyEvent, code: KeyCode) -> bool {
    event.code == code && !event.modifiers.shift && !event.modifiers.control
        && !event.modifiers.alt && !event.modifiers.other
}

/// Whether a key is hit with shift held.
pub open spec fn hits_shifted(event: KeyEvent, code: KeyCode) -> bool {
    event.code == code && event.modifiers.shift && !event.modifiers.control
        && !event.modifiers.alt && !event.modifiers.other
}

/// Playback is started, stopped, changed and searched through with these keys and no
/// others.
pub proof fn law_playback_has_its_keys(event: KeyEvent)
    requires
        event.kind != KeyEventKind::Release,
    ensures
        does(event, SemanticAction::TogglePlayback) <==> types(event, ' ') || hits(event, KeyCode::F(8)) || hits(event, KeyCode::Media(MediaKeyCode::PlayPause)),
        does(event, SemanticAction::NextTrack) <==> types(event, 'n') || hits(event, KeyCode::F(9)) || hits(event, KeyCode::Media(MediaKeyCode::TrackNext)),
        does(event, SemanticAction::PreviousTrack) <==> types(event, 'p') || hits(event, KeyCode::F(7)) || hits(event, KeyCode::Media(MediaKeyCode::TrackPrevious)),
        does(event, SemanticAction::SeekBackward) <==> hits_shifted(event, KeyCode::Left),
        does(event, SemanticAction::SeekForward) <==> hits_shifted(event, KeyCode::Right),
        does(event, SemanticAction::VolumeUp) <==> types_shifted(event, '+'),
        does(event, SemanticAction::VolumeDown) <==> types(event, '-'),
{
}

/// The selection and the focus are moved with these keys and no others.
pub proof fn law_moving_has_its_keys(event: KeyEvent)
    requires
        event.kind != KeyEventKind::Release,
    ensures
        does(event, SemanticAction::MoveUp) <==> types(event, 'k') || hits(event, KeyCode::Up),
        does(event, SemanticAction::MoveDown) <==> types(event, 'j') || hits(event, KeyCode::Down),
        does(event, SemanticAction::MoveLeft) <==> types(event, 'h') || hits(event, KeyCode::Left),
        does(event, SemanticAction::MoveRight) <==> types(event, 'l') || hits(event, KeyCode::Right),
        does(event, SemanticAction::CycleFocusForward) <==> hits(event, KeyCode::Tab),
        does(event, SemanticAction::CycleFocusBackward) <==> hits_shifted(event, KeyCode::BackTab),
        does(event, SemanticAction::Submit) <==> hits(event, KeyCode::Enter),
        does(event, SemanticAction::Cancel) <==> hits(event, KeyCode::Esc),
{
}

/// Windows and panels are opened and the player is left with these keys and no others.
pub proof fn law_windows_have_their_keys(event: KeyEvent)
    requires
        event.kind != KeyEventKind::Release,
    ensures
        does(event, SemanticAction::Quit) <==> types(event, 'q') || (event.code == KeyCode::Char('c') && event.modifiers.control && !event.modifiers.shift && !event.modifiers.alt && !event.modifiers.other),
        does(event, SemanticAction::ToggleHelp) <==> types_shifted(event, '?'),
        does(event, SemanticAction::OpenSearch) <==> types_shifted(event, '/'),
        does(event, SemanticAction::OpenPalette) <==> types_shifted(event, ':'),
        does(event, SemanticAction::ToggleLyrics) <==> types_shifted(event, 'L'),
        does(event, SemanticAction::ToggleQueuePanel) <==> types_shifted(event, 'Q') || hits_shifted(event, KeyCode::Char('q')),
        does(event, SemanticAction::ChooseCountry) <==> types(event, 'c'),
{
}

/// The queue and the rest are changed with these keys and no others.
pub proof fn law_the_queue_has_its_keys(event: KeyEvent)
    requires
        event.kind != KeyEventKind::Release,
    ensures
        does(event, SemanticAction::ToggleFavorite) <==> types(event, 'f'),
        does(event, SemanticAction::ToggleShuffle) <==> types(event, 's'),
        does(event, SemanticAction::CycleRepeat) <==> types(event, 'r'),
        does(event, SemanticAction::ToggleRadio) <==> types(event, 'e'),
        does(event, SemanticAction::MoveQueueItemUp) <==> types(event, '['),
        does(event, SemanticAction::MoveQueueItemDown) <==> types(event, ']'),
        does(event, SemanticAction::ConnectAccount) <==> types(event, 'a'),
        does(event, SemanticAction::LoadMore) <==> types(event, 'm'),
        does(event, SemanticAction::RecheckDependencies) <==> types(event, 'd'),
{
}

/// While text is typed, the keys that end and correct it keep their meaning, and no
/// command but these and those of moving and leaving is given.
pub proof fn law_text_is_ended_and_corrected(context: TextEntryContext, event: KeyEvent)
    requires
        event.kind != KeyEventKind::Release,
    ensures
        ({
            let meant = meaning(InputMode::TextEntry(context), event);
            &&& meant == Some(InputAction::Semantic(SemanticAction::Submit)) <==> hits(
                event,
                KeyCode::Enter,
            )
            &&& meant == Some(InputAction::Semantic(SemanticAction::Cancel)) <==> hits(
                event,
                KeyCode::Esc,
            )
            &&& meant == Some(InputAction::Semantic(SemanticAction::DeleteBackward)) <==> hits(
                event,
                KeyCode::Backspace,
            )
            &&& meant matches Some(InputAction::InsertCharacter(character)) ==> event.code
                == KeyCode::Char(character) && !event.modifiers.other
            &&& meant matches Some(InputAction::Semantic(action)) ==> {
                ||| action == SemanticAction::Submit
                ||| action == SemanticAction::Cancel
                ||| action == SemanticAction::DeleteBackward
                ||| action == SemanticAction::MoveUp && event.code == KeyCode::Up
                ||| action == SemanticAction::MoveDown && event.code == KeyCode::Down
                ||| action == SemanticAction::MoveLeft && event.code == KeyCode::Left
                ||| action == SemanticAction::MoveRight && event.code == KeyCode::Right
                ||| action == SemanticAction::Quit && event.code == KeyCode::Char('c')
                    && event.modifiers.control
            }
        }),
{
}

/// A name tells which action it is of.
pub proof fn law_labels_name_their_action(action: SemanticAction)
    ensures
        action_label(action) == "Quit"@ <==> action == SemanticAction::Quit,
        action_label(action) == "Toggle help"@ <==> action == SemanticAction::ToggleHelp,
        action_label(action) == "Open search"@ <==> action == SemanticAction::OpenSearch,
        action_label(action) == "Open command palette"@ <==> action == SemanticAction::OpenPalette,
        action_label(action) == "Play or pause"@ <==> action == SemanticAction::TogglePlayback,
        action_label(action) == "Next track"@ <==> action == SemanticAction::NextTrack,
        action_label(action) == "Previous track"@ <==> action == SemanticAction::PreviousTrack,
        action_label(action) == "Toggle favorite"@ <==> action == SemanticAction::ToggleFavorite,
        action_label(action) == "Seek backward"@ <==> action == SemanticAction::SeekBackward,
        action_label(action) == "Seek forward"@ <==> action == SemanticAction::SeekForward,
        action_label(action) == "Move up"@ <==> action == SemanticAction::MoveUp,
        action_label(action) == "Move down"@ <==> action == SemanticAction::MoveDown,
        action_label(action) == "Move left"@ <==> action == SemanticAction::MoveLeft,
        action_label(action) == "Move right"@ <==> action == SemanticAction::MoveRight,
        action_label(action) == "Focus next region"@ <==> action == SemanticAction::CycleFocusForward,
        action_label(action) == "Focus previous region"@ <==> action == SemanticAction::CycleFocusBackward,
        action_label(action) == "Volume up"@ <==> action == SemanticAction::VolumeUp,
        action_label(action) == "Volume down"@ <==> action == SemanticAction::VolumeDown,
        action_label(action) == "Toggle shuffle"@ <==> action == SemanticAction::ToggleShuffle,
        action_label(action) == "Cycle repeat"@ <==> action == SemanticAction::CycleRepeat,
        action_label(action) == "Toggle endless radio"@ <==> action == SemanticAction::ToggleRadio,
        action_label(action) == "Move queue item up"@ <==> action == SemanticAction::MoveQueueItemUp,
        action_label(action) == "Move queue item down"@ <==> action == SemanticAction::MoveQueueItemDown,
        action_label(action) == "Connect account"@ <==> action == SemanticAction::ConnectAccount,
        action_label(action) == "Load more results"@ <==> action == SemanticAction::LoadMore,
        action_label(action) == "Recheck dependencies"@ <==> action == SemanticAction::RecheckDependencies,
        action_label(action) == "Choose country"@ <==> action == SemanticAction::ChooseCountry,
        action_label(action) == "Toggle lyrics"@ <==> action == SemanticAction::ToggleLyrics,
        action_label(action) == "Toggle compact queue"@ <==> action == SemanticAction::ToggleQueuePanel,
        action_label(action) == "Close or cancel"@ <==> action == SemanticAction::Cancel,
        action_label(action) == "Delete previous character"@ <==> action == SemanticAction::DeleteBackward,
        action_label(action) == "Submit text"@ <==> action == SemanticAction::Submit,
{
    reveal_strlit("Quit");
    assert("Quit"@.len() == 4);
    reveal_strlit("Toggle help");
    assert("Toggle help"@.len() == 11 && "Toggle help"@[0] == 'T');
    reveal_strlit("Open search");
    assert("Open search"@.len() == 11 && "Open search"@[0] == 'O');
    reveal_strlit("Open command palette");
    assert("Open command palette"@.len() == 20 && "Open command palette"@[8] == 'm');
    reveal_strlit("Play or pause");
    assert("Play or pause"@.len() == 13 && "Play or pause"@[0] == 'P');
    reveal_strlit("Next track");
    assert("Next track"@.len() == 10 && "Next track"@[0] == 'N');
    reveal_strlit("Previous track");
    assert("Previous track"@.len() == 14 && "Previous track"@[0] == 'P');
    reveal_strlit("Toggle favorite");
    assert("Toggle favorite"@.len() == 15 && "Toggle favorite"@[2] == 'g');
    reveal_strlit("Seek backward");
    assert("Seek backward"@.len() == 13 && "Seek backward"@[0] == 'S');
    reveal_strlit("Seek forward");
    assert("Seek forward"@.len() == 12 && "Seek forward"@[0] == 'S');
    reveal_strlit("Move up");
    assert("Move up"@.len() == 7);
    reveal_strlit("Move down");
    assert("Move down"@.len() == 9 && "Move down"@[5] == 'd');
    reveal_strlit("Move left");
    assert("Move left"@.len() == 9 && "Move left"@[5] == 'l');
    reveal_strlit("Move right");
    assert("Move right"@.len() == 10 && "Move right"@[0] == 'M');
    reveal_strlit("Focus next region");
    assert("Focus next region"@.len() == 17 && "Focus next region"@[0] == 'F');
    reveal_strlit("Focus previous region");
    assert("Focus previous region"@.len() == 21);
    reveal_strlit("Volume up");
    assert("Volume up"@.len() == 9 && "Volume up"@[5] == 'e');
    reveal_strlit("Volume down");
    assert("Volume down"@.len() == 11 && "Volume down"@[0] == 'V');
    reveal_strlit("Toggle shuffle");
    assert("Toggle shuffle"@.len() == 14 && "Toggle shuffle"@[0] == 'T');
    reveal_strlit("Cycle repeat");
    assert("Cycle repeat"@.len() == 12 && "Cycle repeat"@[0] == 'C');
    reveal_strlit("Toggle endless radio");
    assert("Toggle endless radio"@.len() == 20 && "Toggle endless radio"@[8] == 'n');
    reveal_strlit("Move queue item up");
    assert("Move queue item up"@.len() == 18);
    reveal_strlit("Move queue item down");
    assert("Move queue item down"@.len() == 20 && "Move queue item down"@[8] == 'u');
    reveal_strlit("Connect account");
    assert("Connect account"@.len() == 15 && "Connect account"@[2] == 'n');
    reveal_strlit("Load more results");
    assert("Load more results"@.len() == 17 && "Load more results"@[0] == 'L');
    reveal_strlit("Recheck dependencies");
    assert("Recheck dependencies"@.len() == 20 && "Recheck dependencies"@[8] == 'd');
    reveal_strlit("Choose country");
    assert("Choose country"@.len() == 14 && "Choose country"@[0] == 'C');
    reveal_strlit("Toggle lyrics");
    assert("Toggle lyrics"@.len() == 13 && "Toggle lyrics"@[0] == 'T');
    reveal_strlit("Toggle compact queue");
    assert("Toggle compact queue"@.len() == 20 && "Toggle compact queue"@[8] == 'o');
    reveal_strlit("Close or cancel");
    assert("Close or cancel"@.len() == 15 && "Close or cancel"@[2] == 'o');
    reveal_strlit("Delete previous character");
    assert("Delete previous character"@.len() == 25);
    reveal_strlit("Submit text");
    assert("Submit text"@.len() == 11 && "Submit text"@[0] == 'S');
}

} // verus!
