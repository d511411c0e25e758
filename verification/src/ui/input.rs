//! What keys mean.

use vstd::prelude::*;
use vstd::string::*;

use crate::text::{is_control, is_control_char};

verus! {

/// What text is being typed for.
#[derive(Clone, Copy, Debug, Eq, Hash, PartialEq, Structural)]
pub enum TextEntryContext {
    Search,
    Palette,
}

/// Whether keys are commands or text.
#[derive(Clone, Copy, Debug, Eq, Hash, PartialEq, Structural)]
pub enum InputMode {
    Normal,
    TextEntry(TextEntryContext),
}

impl Default for InputMode {
    fn default() -> (mode: Self)
        ensures
            mode == InputMode::Normal,
    {
        InputMode::Normal
    }
}

/// What can be done.
#[derive(Clone, Copy, Debug, Eq, Hash, PartialEq, Structural)]
pub enum SemanticAction {
    Quit,
    ToggleHelp,
    OpenSearch,
    OpenPalette,
    TogglePlayback,
    NextTrack,
    PreviousTrack,
    ToggleFavorite,
    SeekBackward,
    SeekForward,
    MoveUp,
    MoveDown,
    MoveLeft,
    MoveRight,
    CycleFocusForward,
    CycleFocusBackward,
    VolumeUp,
    VolumeDown,
    ToggleShuffle,
    CycleRepeat,
    ToggleRadio,
    MoveQueueItemUp,
    MoveQueueItemDown,
    ConnectAccount,
    LoadMore,
    RecheckDependencies,
    ChooseCountry,
    ToggleLyrics,
    ToggleQueuePanel,
    Cancel,
    DeleteBackward,
    Submit,
}

/// What a key means.
#[derive(Clone, Copy, Debug, Eq, Hash, PartialEq, Structural)]
pub enum InputAction {
    Semantic(SemanticAction),
    InsertCharacter(char),
}

/// A key for playback.
#[derive(Clone, Copy, Debug, Eq, Hash, PartialEq, Structural)]
pub enum MediaKeyCode {
    PlayPause,
    TrackNext,
    TrackPrevious,
    /// A key that means nothing here.
    Other,
}

/// Which key was pressed.
#[derive(Clone, Copy, Debug, Eq, Hash, PartialEq, Structural)]
pub enum KeyCode {
    Backspace,
    Enter,
    Left,
    Right,
    Up,
    Down,
    Tab,
    BackTab,
    Esc,
    F(u8),
    Char(char),
    Media(MediaKeyCode),
    /// A key that means nothing here.
    Other,
}

/// Which keys were held meanwhile.
#[derive(Clone, Copy, Debug, Eq, Hash, PartialEq, Structural)]
pub struct KeyModifiers {
    pub shift: bool,
    pub control: bool,
    pub alt: bool,
    /// Whether the super, hyper or meta key was held.
    pub other: bool,
}

impl KeyModifiers {
    /// No key held.
    pub open spec fn nothing() -> KeyModifiers {
        KeyModifiers { shift: false, control: false, alt: false, other: false }
    }

    /// Shift alone.
    pub open spec fn only_shift() -> KeyModifiers {
        KeyModifiers { shift: true, control: false, alt: false, other: false }
    }

    /// Control alone.
    pub open spec fn only_control() -> KeyModifiers {
        KeyModifiers { shift: false, control: true, alt: false, other: false }
    }

    pub fn none() -> (modifiers: Self)
        ensures
            modifiers == KeyModifiers::nothing(),
    {
        KeyModifiers { shift: false, control: false, alt: false, other: false }
    }

    pub fn is_empty(self) -> (empty: bool)
        ensures
            empty == (self == KeyModifiers::nothing()),
    {
        !self.shift && !self.control && !self.alt && !self.other
    }

    pub fn is_shift(self) -> (shift: bool)
        ensures
            shift == (self == KeyModifiers::only_shift()),
    {
        self.shift && !self.control && !self.alt && !self.other
    }

    pub fn is_control(self) -> (control: bool)
        ensures
            control == (self == KeyModifiers::only_control()),
    {
        !self.shift && self.control && !self.alt && !self.other
    }
}

/// What happened to a key.
#[derive(Clone, Copy, Debug, Eq, Hash, PartialEq, Structural)]
pub enum KeyEventKind {
    Press,
    Repeat,
    Release,
}

/// A key and what happened to it.
#[derive(Clone, Copy, Debug, Eq, Hash, PartialEq, Structural)]
pub struct KeyEvent {
    pub code: KeyCode,
    pub modifiers: KeyModifiers,
    pub kind: KeyEventKind,
}

/// Whether a character typed with these keys held is text. Control makes it a
/// command, unless alt is held too, as on keyboards with a third level.
pub open spec fn types_text(modifiers: KeyModifiers) -> bool {
    !modifiers.other && (modifiers.control ==> modifiers.alt)
}

/// The command of a character typed with no key held.
pub open spec fn plain_command(character: char) -> Option<SemanticAction> {
    if character == 'q' {
        Some(SemanticAction::Quit)
    } else if character == ' ' {
        Some(SemanticAction::TogglePlayback)
    } else if character == 'n' {
        Some(SemanticAction::NextTrack)
    } else if character == 'p' {
        Some(SemanticAction::PreviousTrack)
    } else if character == 'f' {
        Some(SemanticAction::ToggleFavorite)
    } else if character == 'k' {
        Some(SemanticAction::MoveUp)
    } else if character == 'j' {
        Some(SemanticAction::MoveDown)
    } else if character == 'h' {
        Some(SemanticAction::MoveLeft)
    } else if character == 'l' {
        Some(SemanticAction::MoveRight)
    } else if character == '-' {
        Some(SemanticAction::VolumeDown)
    } else if character == 's' {
        Some(SemanticAction::ToggleShuffle)
    } else if character == 'r' {
        Some(SemanticAction::CycleRepeat)
    } else if character == 'e' {
        Some(SemanticAction::ToggleRadio)
    } else if character == '[' {
        Some(SemanticAction::MoveQueueItemUp)
    } else if character == ']' {
        Some(SemanticAction::MoveQueueItemDown)
    } else if character == 'a' {
        Some(SemanticAction::ConnectAccount)
    } else if character == 'm' {
        Some(SemanticAction::LoadMore)
    } else if character == 'd' {
        Some(SemanticAction::RecheckDependencies)
    } else if character == 'c' {
        Some(SemanticAction::ChooseCountry)
    } else {
        None
    }
}

/// The command of a character that may need shift to be typed.
pub open spec fn symbol_command(character: char) -> Option<SemanticAction> {
    if character == '?' {
        Some(SemanticAction::ToggleHelp)
    } else if character == '/' {
        Some(SemanticAction::OpenSearch)
    } else if character == ':' {
        Some(SemanticAction::OpenPalette)
    } else if character == '+' {
        Some(SemanticAction::VolumeUp)
    } else if character == 'L' {
        Some(SemanticAction::ToggleLyrics)
    } else if character == 'Q' {
        Some(SemanticAction::ToggleQueuePanel)
    } else {
        None
    }
}

/// The command of a key that types no character, with no key held.
pub open spec fn key_command(code: KeyCode) -> Option<SemanticAction> {
    match code {
        KeyCode::F(number) => if number == 7 {
            Some(SemanticAction::PreviousTrack)
        } else if number == 8 {
            Some(SemanticAction::TogglePlayback)
        } else if number == 9 {
            Some(SemanticAction::NextTrack)
        } else {
            None
        },
        KeyCode::Media(MediaKeyCode::TrackPrevious) => Some(SemanticAction::PreviousTrack),
        KeyCode::Media(MediaKeyCode::PlayPause) => Some(SemanticAction::TogglePlayback),
        KeyCode::Media(MediaKeyCode::TrackNext) => Some(SemanticAction::NextTrack),
        KeyCode::Up => Some(SemanticAction::MoveUp),
        KeyCode::Down => Some(SemanticAction::MoveDown),
        KeyCode::Left => Some(SemanticAction::MoveLeft),
        KeyCode::Right => Some(SemanticAction::MoveRight),
        KeyCode::Tab => Some(SemanticAction::CycleFocusForward),
        KeyCode::Enter => Some(SemanticAction::Submit),
        KeyCode::Esc => Some(SemanticAction::Cancel),
        _ => None,
    }
}

/// The command of a key, where keys are commands.
pub open spec fn command(code: KeyCode, modifiers: KeyModifiers) -> Option<SemanticAction> {
    let nothing = modifiers == KeyModifiers::nothing();
    let shift = modifiers == KeyModifiers::only_shift();
    match code {
        KeyCode::Char(character) => if character == 'c' && modifiers
            == KeyModifiers::only_control() {
            Some(SemanticAction::Quit)
        } else if (nothing || shift) && symbol_command(character) is Some {
            symbol_command(character)
        } else if nothing {
            plain_command(character)
        } else if shift && character == 'q' {
            Some(SemanticAction::ToggleQueuePanel)
        } else {
            None
        },
        KeyCode::BackTab => if shift {
            Some(SemanticAction::CycleFocusBackward)
        } else {
            None
        },
        KeyCode::Left => if shift {
            Some(SemanticAction::SeekBackward)
        } else if nothing {
            key_command(code)
        } else {
            None
        },
        KeyCode::Right => if shift {
            Some(SemanticAction::SeekForward)
        } else if nothing {
            key_command(code)
        } else {
            None
        },
        _ => if nothing {
            key_command(code)
        } else {
            None
        },
    }
}

/// Whether a key means nothing while text is typed, though it is a command
/// otherwise: playback keys, focus keys and seeking.
pub open spec fn idle_while_typing(code: KeyCode, modifiers: KeyModifiers) -> bool {
    match code {
        KeyCode::F(number) => 7 <= number <= 9 && modifiers == KeyModifiers::nothing(),
        KeyCode::Media(key) => key != MediaKeyCode::Other && modifiers == KeyModifiers::nothing(),
        KeyCode::Tab => modifiers == KeyModifiers::nothing(),
        KeyCode::Left => modifiers == KeyModifiers::only_shift(),
        KeyCode::Right => modifiers == KeyModifiers::only_shift(),
        KeyCode::BackTab => modifiers == KeyModifiers::only_shift(),
        _ => false,
    }
}

/// What a key means.
pub open spec fn meaning(mode: InputMode, event: KeyEvent) -> Option<InputAction> {
    let as_command = match command(event.code, event.modifiers) {
        Some(action) => Some(InputAction::Semantic(action)),
        None => None,
    };
    if event.kind == KeyEventKind::Release {
        None
    } else if mode is Normal {
        as_command
    } else if event.code is Char && types_text(event.modifiers) && !is_control_char(
        event.code->Char_0,
    ) {
        Some(InputAction::InsertCharacter(event.code->Char_0))
    } else if idle_while_typing(event.code, event.modifiers) {
        None
    } else if event.code == KeyCode::Backspace && event.modifiers == KeyModifiers::nothing() {
        Some(InputAction::Semantic(SemanticAction::DeleteBackward))
    } else {
        as_command
    }
}

/// What a key means.
pub fn map_event(mode: InputMode, event: KeyEvent) -> (action: Option<InputAction>)
    ensures
        action == meaning(mode, event),
{
    if event.kind == KeyEventKind::Release {
        return None;
    }
    let typing = match mode {
        InputMode::Normal => false,
        InputMode::TextEntry(_) => true,
    };
    if typing {
        match event.code {
            KeyCode::Char(character) => {
                if printable_modifiers(event.modifiers) && !is_control(character) {
                    return Some(InputAction::InsertCharacter(character));
                }
            },
            KeyCode::F(number) => {
                if 7 <= number && number <= 9 && event.modifiers.is_empty() {
                    return None;
                }
            },
            KeyCode::Media(key) => {
                if key != MediaKeyCode::Other && event.modifiers.is_empty() {
                    return None;
                }
            },
            KeyCode::Tab => {
                if event.modifiers.is_empty() {
                    return None;
                }
            },
            KeyCode::Left => {
                if event.modifiers.is_shift() {
                    return None;
                }
            },
            KeyCode::Right => {
                if event.modifiers.is_shift() {
                    return None;
                }
            },
            KeyCode::BackTab => {
                if event.modifiers.is_shift() {
                    return None;
                }
            },
            KeyCode::Backspace => {
                if event.modifiers.is_empty() {
                    return Some(InputAction::Semantic(SemanticAction::DeleteBackward));
                }
            },
            _ => {},
        }
    }
    match map_global(event) {
        Some(action) => Some(InputAction::Semantic(action)),
        None => None,
    }
}

/// What a key means.
pub fn map_key_event(event: KeyEvent, mode: InputMode) -> (action: Option<InputAction>)
    ensures
        action == meaning(mode, event),
{
    map_event(mode, event)
}

fn map_global(event: KeyEvent) -> (action: Option<SemanticAction>)
    ensures
        action == command(event.code, event.modifiers),
{
    let nothing = event.modifiers.is_empty();
    let shift = event.modifiers.is_shift();
    match event.code {
        KeyCode::Char(character) => {
            if character == 'c' && event.modifiers.is_control() {
                return Some(SemanticAction::Quit);
            }
            if nothing || shift {
                let symbol = map_symbol(character);
                if symbol.is_some() {
                    return symbol;
                }
            }
            if nothing {
                map_plain(character)
            } else if shift && character == 'q' {
                Some(SemanticAction::ToggleQueuePanel)
            } else {
                None
            }
        },
        KeyCode::BackTab => {
            if shift {
                Some(SemanticAction::CycleFocusBackward)
            } else {
                None
            }
        },
        KeyCode::Left => {
            if shift {
                Some(SemanticAction::SeekBackward)
            } else if nothing {
                Some(SemanticAction::MoveLeft)
            } else {
                None
            }
        },
        KeyCode::Right => {
            if shift {
                Some(SemanticAction::SeekForward)
            } else if nothing {
                Some(SemanticAction::MoveRight)
            } else {
                None
            }
        },
        _ => {
            if nothing {
                map_key(event.code)
            } else {
                None
            }
        },
    }
}

fn map_symbol(character: char) -> (action: Option<SemanticAction>)
    ensures
        action == symbol_command(character),
{
    match character {
        '?' => Some(SemanticAction::ToggleHelp),
        '/' => Some(SemanticAction::OpenSearch),
        ':' => Some(SemanticAction::OpenPalette),
        '+' => Some(SemanticAction::VolumeUp),
        'L' => Some(SemanticAction::ToggleLyrics),
        'Q' => Some(SemanticAction::ToggleQueuePanel),
        _ => None,
    }
}

fn map_plain(character: char) -> (action: Option<SemanticAction>)
    ensures
        action == plain_command(character),
{
    match character {
        'q' => Some(SemanticAction::Quit),
        ' ' => Some(SemanticAction::TogglePlayback),
        'n' => Some(SemanticAction::NextTrack),
        'p' => Some(SemanticAction::PreviousTrack),
        'f' => Some(SemanticAction::ToggleFavorite),
        'k' => Some(SemanticAction::MoveUp),
        'j' => Some(SemanticAction::MoveDown),
        'h' => Some(SemanticAction::MoveLeft),
        'l' => Some(SemanticAction::MoveRight),
        '-' => Some(SemanticAction::VolumeDown),
        's' => Some(SemanticAction::ToggleShuffle),
        'r' => Some(SemanticAction::CycleRepeat),
        'e' => Some(SemanticAction::ToggleRadio),
        '[' => Some(SemanticAction::MoveQueueItemUp),
        ']' => Some(SemanticAction::MoveQueueItemDown),
        'a' => Some(SemanticAction::ConnectAccount),
        'm' => Some(SemanticAction::LoadMore),
        'd' => Some(SemanticAction::RecheckDependencies),
        'c' => Some(SemanticAction::ChooseCountry),
        _ => None,
    }
}

fn map_key(code: KeyCode) -> (action: Option<SemanticAction>)
    ensures
        action == key_command(code),
{
    match code {
        KeyCode::F(number) => {
            if number == 7 {
                Some(SemanticAction::PreviousTrack)
            } else if number == 8 {
                Some(SemanticAction::TogglePlayback)
            } else if number == 9 {
                Some(SemanticAction::NextTrack)
            } else {
                None
            }
        },
        KeyCode::Media(MediaKeyCode::TrackPrevious) => Some(SemanticAction::PreviousTrack),
        KeyCode::Media(MediaKeyCode::PlayPause) => Some(SemanticAction::TogglePlayback),
        KeyCode::Media(MediaKeyCode::TrackNext) => Some(SemanticAction::NextTrack),
        KeyCode::Up => Some(SemanticAction::MoveUp),
        KeyCode::Down => Some(SemanticAction::MoveDown),
        KeyCode::Left => Some(SemanticAction::MoveLeft),
        KeyCode::Right => Some(SemanticAction::MoveRight),
        KeyCode::Tab => Some(SemanticAction::CycleFocusForward),
        KeyCode::Enter => Some(SemanticAction::Submit),
        KeyCode::Esc => Some(SemanticAction::Cancel),
        _ => None,
    }
}

fn printable_modifiers(modifiers: KeyModifiers) -> (printable: bool)
    ensures
        printable == types_text(modifiers),
{
    !modifiers.other && (!modifiers.control || modifiers.alt)
}

/// An action that the command palette offers.
#[derive(Clone, Copy, Debug, Eq, Hash, PartialEq)]
pub struct PaletteEntry {
    pub action: SemanticAction,
    pub label: &'static str,
    pub shortcut: &'static str,
}

/// What a [`PaletteEntry`] says.
#[verifier::ext_equal]
pub struct PaletteEntryView {
    pub action: SemanticAction,
    pub label: Seq<char>,
    pub shortcut: Seq<char>,
}

impl View for PaletteEntry {
    type V = PaletteEntryView;

    open spec fn view(&self) -> PaletteEntryView {
        PaletteEntryView { action: self.action, label: self.label@, shortcut: self.shortcut@ }
    }
}

/// What the entries of a list say.
pub open spec fn entry_views(entries: Seq<PaletteEntry>) -> Seq<PaletteEntryView> {
    entries.map_values(|entry: PaletteEntry| entry@)
}

/// Which action comes `index`-th in the palette.
pub open spec fn action_at(index: int) -> SemanticAction {
    let actions = seq![
        SemanticAction::Quit,
        SemanticAction::ToggleHelp,
        SemanticAction::OpenSearch,
        SemanticAction::OpenPalette,
        SemanticAction::TogglePlayback,
        SemanticAction::NextTrack,
        SemanticAction::PreviousTrack,
        SemanticAction::ToggleFavorite,
        SemanticAction::SeekBackward,
        SemanticAction::SeekForward,
        SemanticAction::MoveUp,
        SemanticAction::MoveDown,
        SemanticAction::MoveLeft,
        SemanticAction::MoveRight,
        SemanticAction::CycleFocusForward,
        SemanticAction::CycleFocusBackward,
        SemanticAction::VolumeUp,
        SemanticAction::VolumeDown,
        SemanticAction::ToggleShuffle,
        SemanticAction::CycleRepeat,
        SemanticAction::ToggleRadio,
        SemanticAction::MoveQueueItemUp,
        SemanticAction::MoveQueueItemDown,
        SemanticAction::ConnectAccount,
        SemanticAction::LoadMore,
        SemanticAction::RecheckDependencies,
        SemanticAction::ChooseCountry,
        SemanticAction::ToggleLyrics,
        SemanticAction::ToggleQueuePanel,
        SemanticAction::Cancel,
        SemanticAction::DeleteBackward,
        SemanticAction::Submit,
    ];
    actions[index]
}

/// How an action is called.
pub open spec fn action_label(action: SemanticAction) -> Seq<char> {
    match action {
        SemanticAction::Quit => "Quit"@,
        SemanticAction::ToggleHelp => "Toggle help"@,
        SemanticAction::OpenSearch => "Open search"@,
        SemanticAction::OpenPalette => "Open command palette"@,
        SemanticAction::TogglePlayback => "Play or pause"@,
        SemanticAction::NextTrack => "Next track"@,
        SemanticAction::PreviousTrack => "Previous track"@,
        SemanticAction::ToggleFavorite => "Toggle favorite"@,
        SemanticAction::SeekBackward => "Seek backward"@,
        SemanticAction::SeekForward => "Seek forward"@,
        SemanticAction::MoveUp => "Move up"@,
        SemanticAction::MoveDown => "Move down"@,
        SemanticAction::MoveLeft => "Move left"@,
        SemanticAction::MoveRight => "Move right"@,
        SemanticAction::CycleFocusForward => "Focus next region"@,
        SemanticAction::CycleFocusBackward => "Focus previous region"@,
        SemanticAction::VolumeUp => "Volume up"@,
        SemanticAction::VolumeDown => "Volume down"@,
        SemanticAction::ToggleShuffle => "Toggle shuffle"@,
        SemanticAction::CycleRepeat => "Cycle repeat"@,
        SemanticAction::ToggleRadio => "Toggle endless radio"@,
        SemanticAction::MoveQueueItemUp => "Move queue item up"@,
        SemanticAction::MoveQueueItemDown => "Move queue item down"@,
        SemanticAction::ConnectAccount => "Connect account"@,
        SemanticAction::LoadMore => "Load more results"@,
        SemanticAction::RecheckDependencies => "Recheck dependencies"@,
        SemanticAction::ChooseCountry => "Choose country"@,
        SemanticAction::ToggleLyrics => "Toggle lyrics"@,
        SemanticAction::ToggleQueuePanel => "Toggle compact queue"@,
        SemanticAction::Cancel => "Close or cancel"@,
        SemanticAction::DeleteBackward => "Delete previous character"@,
        SemanticAction::Submit => "Submit text"@,
    }
}

/// The keys of an action, as the palette shows them.
pub open spec fn action_shortcut(action: SemanticAction) -> Seq<char> {
    match action {
        SemanticAction::Quit => "q"@,
        SemanticAction::ToggleHelp => "?"@,
        SemanticAction::OpenSearch => "/"@,
        SemanticAction::OpenPalette => ":"@,
        SemanticAction::TogglePlayback => "Space / F8 / Media Play/Pause"@,
        SemanticAction::NextTrack => "n / F9 / Media Next"@,
        SemanticAction::PreviousTrack => "p / F7 / Media Previous"@,
        SemanticAction::ToggleFavorite => "f"@,
        SemanticAction::SeekBackward => "Shift+Left"@,
        SemanticAction::SeekForward => "Shift+Right"@,
        SemanticAction::MoveUp => "↑ / k"@,
        SemanticAction::MoveDown => "↓ / j"@,
        SemanticAction::MoveLeft => "← / h"@,
        SemanticAction::MoveRight => "→ / l"@,
        SemanticAction::CycleFocusForward => "Tab"@,
        SemanticAction::CycleFocusBackward => "Shift+Tab"@,
        SemanticAction::VolumeUp => "+"@,
        SemanticAction::VolumeDown => "-"@,
        SemanticAction::ToggleShuffle => "s"@,
        SemanticAction::CycleRepeat => "r"@,
        SemanticAction::ToggleRadio => "e"@,
        SemanticAction::MoveQueueItemUp => "["@,
        SemanticAction::MoveQueueItemDown => "]"@,
        SemanticAction::ConnectAccount => "a"@,
        SemanticAction::LoadMore => "m"@,
        SemanticAction::RecheckDependencies => "d"@,
        SemanticAction::ChooseCountry => "c"@,
        SemanticAction::ToggleLyrics => "L"@,
        SemanticAction::ToggleQueuePanel => "Q"@,
        SemanticAction::Cancel => "Esc"@,
        SemanticAction::DeleteBackward => "Backspace"@,
        SemanticAction::Submit => "Enter"@,
    }
}

/// How many actions there are.
pub const ACTION_COUNT: usize = 32;

/// What the palette offers, before it is filtered.
pub open spec fn all_entries() -> Seq<PaletteEntryView> {
    Seq::new(
        ACTION_COUNT as nat,
        |index: int|
            PaletteEntryView {
                action: action_at(index),
                label: action_label(action_at(index)),
                shortcut: action_shortcut(action_at(index)),
            },
    )
}

impl SemanticAction {
    /// Every action, in the order of the palette.
    pub fn all() -> (actions: Vec<SemanticAction>)
        ensures
            actions@ == Seq::new(ACTION_COUNT as nat, |index: int| action_at(index)),
    {
        let actions: Vec<SemanticAction> = vec![
            SemanticAction::Quit,
            SemanticAction::ToggleHelp,
            SemanticAction::OpenSearch,
            SemanticAction::OpenPalette,
            SemanticAction::TogglePlayback,
            SemanticAction::NextTrack,
            SemanticAction::PreviousTrack,
            SemanticAction::ToggleFavorite,
            SemanticAction::SeekBackward,
            SemanticAction::SeekForward,
            SemanticAction::MoveUp,
            SemanticAction::MoveDown,
            SemanticAction::MoveLeft,
            SemanticAction::MoveRight,
            SemanticAction::CycleFocusForward,
            SemanticAction::CycleFocusBackward,
            SemanticAction::VolumeUp,
            SemanticAction::VolumeDown,
            SemanticAction::ToggleShuffle,
            SemanticAction::CycleRepeat,
            SemanticAction::ToggleRadio,
            SemanticAction::MoveQueueItemUp,
            SemanticAction::MoveQueueItemDown,
            SemanticAction::ConnectAccount,
            SemanticAction::LoadMore,
            SemanticAction::RecheckDependencies,
            SemanticAction::ChooseCountry,
            SemanticAction::ToggleLyrics,
            SemanticAction::ToggleQueuePanel,
            SemanticAction::Cancel,
            SemanticAction::DeleteBackward,
            SemanticAction::Submit,
        ];
        assert(actions@ =~= Seq::new(ACTION_COUNT as nat, |index: int| action_at(index)));
        actions
    }

    /// How the action is called.
    pub fn label(self) -> (label: &'static str)
        ensures
            label@ == action_label(self),
    {
        match self {
            SemanticAction::Quit => "Quit",
            SemanticAction::ToggleHelp => "Toggle help",
            SemanticAction::OpenSearch => "Open search",
            SemanticAction::OpenPalette => "Open command palette",
            SemanticAction::TogglePlayback => "Play or pause",
            SemanticAction::NextTrack => "Next track",
            SemanticAction::PreviousTrack => "Previous track",
            SemanticAction::ToggleFavorite => "Toggle favorite",
            SemanticAction::SeekBackward => "Seek backward",
            SemanticAction::SeekForward => "Seek forward",
            SemanticAction::MoveUp => "Move up",
            SemanticAction::MoveDown => "Move down",
            SemanticAction::MoveLeft => "Move left",
            SemanticAction::MoveRight => "Move right",
            SemanticAction::CycleFocusForward => "Focus next region",
            SemanticAction::CycleFocusBackward => "Focus previous region",
            SemanticAction::VolumeUp => "Volume up",
            SemanticAction::VolumeDown => "Volume down",
            SemanticAction::ToggleShuffle => "Toggle shuffle",
            SemanticAction::CycleRepeat => "Cycle repeat",
            SemanticAction::ToggleRadio => "Toggle endless radio",
            SemanticAction::MoveQueueItemUp => "Move queue item up",
            SemanticAction::MoveQueueItemDown => "Move queue item down",
            SemanticAction::ConnectAccount => "Connect account",
            SemanticAction::LoadMore => "Load more results",
            SemanticAction::RecheckDependencies => "Recheck dependencies",
            SemanticAction::ChooseCountry => "Choose country",
            SemanticAction::ToggleLyrics => "Toggle lyrics",
            SemanticAction::ToggleQueuePanel => "Toggle compact queue",
            SemanticAction::Cancel => "Close or cancel",
            SemanticAction::DeleteBackward => "Delete previous character",
            SemanticAction::Submit => "Submit text",
        }
    }

    /// The keys of the action, as the palette shows them.
    pub fn shortcut(self) -> (shortcut: &'static str)
        ensures
            shortcut@ == action_shortcut(self),
    {
        match self {
            SemanticAction::Quit => "q",
            SemanticAction::ToggleHelp => "?",
            SemanticAction::OpenSearch => "/",
            SemanticAction::OpenPalette => ":",
            SemanticAction::TogglePlayback => "Space / F8 / Media Play/Pause",
            SemanticAction::NextTrack => "n / F9 / Media Next",
            SemanticAction::PreviousTrack => "p / F7 / Media Previous",
            SemanticAction::ToggleFavorite => "f",
            SemanticAction::SeekBackward => "Shift+Left",
            SemanticAction::SeekForward => "Shift+Right",
            SemanticAction::MoveUp => "↑ / k",
            SemanticAction::MoveDown => "↓ / j",
            SemanticAction::MoveLeft => "← / h",
            SemanticAction::MoveRight => "→ / l",
            SemanticAction::CycleFocusForward => "Tab",
            SemanticAction::CycleFocusBackward => "Shift+Tab",
            SemanticAction::VolumeUp => "+",
            SemanticAction::VolumeDown => "-",
            SemanticAction::ToggleShuffle => "s",
            SemanticAction::CycleRepeat => "r",
            SemanticAction::ToggleRadio => "e",
            SemanticAction::MoveQueueItemUp => "[",
            SemanticAction::MoveQueueItemDown => "]",
            SemanticAction::ConnectAccount => "a",
            SemanticAction::LoadMore => "m",
            SemanticAction::RecheckDependencies => "d",
            SemanticAction::ChooseCountry => "c",
            SemanticAction::ToggleLyrics => "L",
            SemanticAction::ToggleQueuePanel => "Q",
            SemanticAction::Cancel => "Esc",
            SemanticAction::DeleteBackward => "Backspace",
            SemanticAction::Submit => "Enter",
        }
    }
}

/// What the palette offers, before it is filtered.
pub fn palette_entries() -> (entries: Vec<PaletteEntry>)
    ensures
        entry_views(entries@) == all_entries(),
{
    let actions = SemanticAction::all();
    let mut entries: Vec<PaletteEntry> = Vec::new();
    let mut index: usize = 0;
    while index < actions.len()
        invariant
            actions@ == Seq::new(ACTION_COUNT as nat, |index: int| action_at(index)),
            index <= actions.len(),
            entry_views(entries@) == all_entries().take(index as int),
        decreases actions.len() - index,
    {
        let action = actions[index];
        let ghost before = entries@;
        let entry = PaletteEntry { action, label: action.label(), shortcut: action.shortcut() };
        entries.push(entry);
        assert(entry@ == all_entries()[index as int]);
        assert(entry_views(entries@) =~= entry_views(before).push(entry@));
        index = index + 1;
        assert(all_entries().take(index as int) =~= all_entries().take(index - 1).push(
            all_entries()[index - 1],
        ));
    }
    assert(all_entries().take(ACTION_COUNT as int) =~= all_entries());
    entries
}

/// The palette offers every action, and none twice.
pub proof fn law_palette_offers_each_action_once(action: SemanticAction)
    ensures
        exists|index: int|
            0 <= index < all_entries().len() && (#[trigger] all_entries()[index]).action == action,
        forall|first: int, second: int|
            0 <= first < second < all_entries().len() ==> (#[trigger] all_entries()[first]).action
                != (#[trigger] all_entries()[second]).action,
{
    let index: int = position_of(action);
    assert(all_entries()[index].action == action);
    assert forall|first: int, second: int|
        0 <= first < second < all_entries().len() implies (#[trigger] all_entries()[first]).action
        != (#[trigger] all_entries()[second]).action by {
        assert(position_of(all_entries()[first].action) == first);
        assert(position_of(all_entries()[second].action) == second);
    }
}

/// Where an action stands in the palette.
spec fn position_of(action: SemanticAction) -> int {
    match action {
        SemanticAction::Quit => 0,
        SemanticAction::ToggleHelp => 1,
        SemanticAction::OpenSearch => 2,
        SemanticAction::OpenPalette => 3,
        SemanticAction::TogglePlayback => 4,
        SemanticAction::NextTrack => 5,
        SemanticAction::PreviousTrack => 6,
        SemanticAction::ToggleFavorite => 7,
        SemanticAction::SeekBackward => 8,
        SemanticAction::SeekForward => 9,
        SemanticAction::MoveUp => 10,
        SemanticAction::MoveDown => 11,
        SemanticAction::MoveLeft => 12,
        SemanticAction::MoveRight => 13,
        SemanticAction::CycleFocusForward => 14,
        SemanticAction::CycleFocusBackward => 15,
        SemanticAction::VolumeUp => 16,
        SemanticAction::VolumeDown => 17,
        SemanticAction::ToggleShuffle => 18,
        SemanticAction::CycleRepeat => 19,
        SemanticAction::ToggleRadio => 20,
        SemanticAction::MoveQueueItemUp => 21,
        SemanticAction::MoveQueueItemDown => 22,
        SemanticAction::ConnectAccount => 23,
        SemanticAction::LoadMore => 24,
        SemanticAction::RecheckDependencies => 25,
        SemanticAction::ChooseCountry => 26,
        SemanticAction::ToggleLyrics => 27,
        SemanticAction::ToggleQueuePanel => 28,
        SemanticAction::Cancel => 29,
        SemanticAction::DeleteBackward => 30,
        SemanticAction::Submit => 31,
    }
}

/// While text is typed, a printable character is text, whatever command it is
/// otherwise, and no key starts, stops or seeks playback or moves the focus.
pub proof fn law_typing_never_controls_playback(context: TextEntryContext, event: KeyEvent)
    requires
        event.code is Char ==> types_text(event.modifiers),
        event.code is Char ==> !is_control_char(event.code->Char_0),
    ensures
        event.code is Char && event.kind != KeyEventKind::Release ==> meaning(
            InputMode::TextEntry(context),
            event,
        ) == Some(InputAction::InsertCharacter(event.code->Char_0)),
        meaning(InputMode::TextEntry(context), event) matches Some(InputAction::Semantic(action))
            ==> {
            &&& action != SemanticAction::TogglePlayback
            &&& action != SemanticAction::NextTrack
            &&& action != SemanticAction::PreviousTrack
            &&& action != SemanticAction::SeekBackward
            &&& action != SemanticAction::SeekForward
            &&& action != SemanticAction::CycleFocusForward
            &&& action != SemanticAction::CycleFocusBackward
            &&& action != SemanticAction::Quit
        },
{
}

/// A key that is let go means nothing.
pub proof fn law_release_means_nothing(mode: InputMode, event: KeyEvent)
    requires
        event.kind == KeyEventKind::Release,
    ensures
        meaning(mode, event) is None,
{
}

} // verus!
