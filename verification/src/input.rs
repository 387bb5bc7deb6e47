use vstd::prelude::*;
use crate::basic::FontSize;
use crate::layout::Align;
use crate::style::{Background, ColorRef, RadiusRef, Role, SpacingRef, Tone, WidgetSizeProps};
use crate::text::CursorLocation;
use crate::widget::Widget;

verus! {

/// The named keys that text editing reacts to; every other named key is `Other`.
#[derive(Debug, Clone, Copy, PartialEq, Eq, Structural)]
pub enum NamedKey {
    ArrowLeft,
    ArrowRight,
    ArrowUp,
    ArrowDown,
    Backspace,
    Enter,
    Other,
}

/// A key as the keyboard reports it: a named key, the characters of a key, or anything else.
pub enum LogicalKey {
    Named(NamedKey),
    Character(String),
    Unidentified,
}

/// The modifier keys held down.
#[derive(Debug, Clone, Copy, PartialEq, Eq, Structural)]
pub struct Modifiers {
    pub control: bool,
    pub shift: bool,
}

/// A pressed key, with the text it produces, if any.
pub struct KeyboardInput {
    pub key: LogicalKey,
    pub modifiers: Modifiers,
    pub text: Option<String>,
}

/// A cursor movement of the text editor.
#[derive(Debug, Clone, Copy, PartialEq, Eq, Structural)]
pub enum CursorMove {
    Left,
    Right,
    Up,
    Down,
    ForwardWord,
    BackwardWord,
    /// Put the cursor at a place in the text.
    SetPosition(CursorLocation),
}

/// An edit of the text.
pub enum EditAction {
    DeleteBackwardWord,
    DeleteBackwardChar,
    InsertLine,
    InsertText(String),
}

/// An action of the text editor.
pub enum EditorAction {
    SelectionStart,
    SelectionClear,
    CursorMove(CursorMove),
    Edit(EditAction),
}

/// An action of a text input field.
pub enum Action {
    Editor(EditorAction),
    Copy,
    Paste,
    Cut,
}

/// The cursor movement of a named key: arrows move by character or line, and with control
/// held the left and right arrows move by word.
pub open spec fn spec_cursor_move(key: NamedKey, control: bool) -> Option<CursorMove> {
    match key {
        NamedKey::ArrowLeft => Some(if control { CursorMove::BackwardWord } else { CursorMove::Left }),
        NamedKey::ArrowRight => Some(if control { CursorMove::ForwardWord } else { CursorMove::Right }),
        NamedKey::ArrowUp => Some(CursorMove::Up),
        NamedKey::ArrowDown => Some(CursorMove::Down),
        _ => None,
    }
}

/// Up and down arrows move the cursor up and down a line whatever the modifiers; left and right
/// move by a character, or by a word with control held; no other key moves the cursor.
pub proof fn lemma_arrow_directions(key: NamedKey, control: bool)
    ensures
        spec_cursor_move(NamedKey::ArrowUp, control) == Some(CursorMove::Up),
        spec_cursor_move(NamedKey::ArrowDown, control) == Some(CursorMove::Down),
        spec_cursor_move(NamedKey::ArrowLeft, false) == Some(CursorMove::Left),
        spec_cursor_move(NamedKey::ArrowRight, false) == Some(CursorMove::Right),
        spec_cursor_move(NamedKey::ArrowLeft, true) == Some(CursorMove::BackwardWord),
        spec_cursor_move(NamedKey::ArrowRight, true) == Some(CursorMove::ForwardWord),
        spec_cursor_move(key, control) is Some <==> (key == NamedKey::ArrowUp || key == NamedKey::ArrowDown
            || key == NamedKey::ArrowLeft || key == NamedKey::ArrowRight),
        spec_cursor_move(key, true) != spec_cursor_move(key, false) ==> (key == NamedKey::ArrowLeft || key
            == NamedKey::ArrowRight),
{
}

/// The cursor movement that a named key asks for, if any.
pub fn handle_cursor_move(key: NamedKey, mods: Modifiers) -> (m: Option<CursorMove>)
    ensures
        m == spec_cursor_move(key, mods.control),
{
    let ctrl = mods.control;
    match key {
        NamedKey::ArrowLeft => if ctrl {
            Some(CursorMove::BackwardWord)
        } else {
            Some(CursorMove::Left)
        },
        NamedKey::ArrowRight => if ctrl {
            Some(CursorMove::ForwardWord)
        } else {
            Some(CursorMove::Right)
        },
        NamedKey::ArrowUp => Some(CursorMove::Up),
        NamedKey::ArrowDown => Some(CursorMove::Down),
        _ => None,
    }
}

/// The kind of an action, with the text it inserts, for stating what `handle_input` sends.
pub enum ActionKind {
    SelectionStart,
    SelectionClear,
    Move(CursorMove),
    DeleteBackwardWord,
    DeleteBackwardChar,
    InsertLine,
    InsertText(Seq<char>),
    Copy,
    Paste,
    Cut,
}

/// What an action is.
pub open spec fn action_kind(a: Action) -> ActionKind {
    match a {
        Action::Editor(EditorAction::SelectionStart) => ActionKind::SelectionStart,
        Action::Editor(EditorAction::SelectionClear) => ActionKind::SelectionClear,
        Action::Editor(EditorAction::CursorMove(m)) => ActionKind::Move(m),
        Action::Editor(EditorAction::Edit(EditAction::DeleteBackwardWord)) => ActionKind::DeleteBackwardWord,
        Action::Editor(EditorAction::Edit(EditAction::DeleteBackwardChar)) => ActionKind::DeleteBackwardChar,
        Action::Editor(EditorAction::Edit(EditAction::InsertLine)) => ActionKind::InsertLine,
        Action::Editor(EditorAction::Edit(EditAction::InsertText(t))) => ActionKind::InsertText(t@),
        Action::Copy => ActionKind::Copy,
        Action::Paste => ActionKind::Paste,
        Action::Cut => ActionKind::Cut,
    }
}

/// The actions of a key press, in the order they are sent:
/// - an arrow key clears the selection, or starts one when shift is held, then moves the cursor;
/// - backspace deletes a character, or a word with control held; enter inserts a line;
/// - `c`, `v` and `x` with control copy, paste and cut;
/// - otherwise the text that the key produces, if any, is inserted.
pub open spec fn spec_key_actions(key: LogicalKey, mods: Modifiers, text: Option<Seq<char>>) -> Seq<ActionKind> {
    let insert = match text {
        Some(t) => seq![ActionKind::InsertText(t)],
        None => seq![],
    };
    match key {
        LogicalKey::Named(k) => match spec_cursor_move(k, mods.control) {
            Some(m) => seq![
                if mods.shift { ActionKind::SelectionStart } else { ActionKind::SelectionClear },
                ActionKind::Move(m),
            ],
            None => if k == NamedKey::Backspace {
                seq![if mods.control { ActionKind::DeleteBackwardWord } else { ActionKind::DeleteBackwardChar }]
            } else if k == NamedKey::Enter {
                seq![ActionKind::InsertLine]
            } else {
                insert
            },
        },
        LogicalKey::Character(c) => if mods.control && c@ == seq!['c'] {
            seq![ActionKind::Copy]
        } else if mods.control && c@ == seq!['v'] {
            seq![ActionKind::Paste]
        } else if mods.control && c@ == seq!['x'] {
            seq![ActionKind::Cut]
        } else {
            insert
        },
        LogicalKey::Unidentified => insert,
    }
}

/// The view of an optional text.
pub open spec fn text_view(text: Option<String>) -> Option<Seq<char>> {
    match text {
        Some(t) => Some(t@),
        None => None,
    }
}

/// Whether a named key is one of the four arrows.
pub open spec fn is_arrow(k: NamedKey) -> bool {
    k == NamedKey::ArrowLeft || k == NamedKey::ArrowRight || k == NamedKey::ArrowUp || k == NamedKey::ArrowDown
}

/// What a key press does, key by key:
/// - a named key other than the arrows, backspace and enter inserts exactly its text, whatever
///   the modifiers, and does nothing without text;
/// - an arrow starts the selection with shift and clears it without, then moves the cursor, and
///   its text is not inserted;
/// - backspace deletes a word with control and a character without; enter inserts a line;
/// - a character key inserts its text, except `c`, `v` and `x` with control, which copy, paste
///   and cut; an unidentified key inserts its text.
/// A key's text is dropped only by the arrows, backspace, enter and the three shortcuts.
pub proof fn lemma_key_actions(k: NamedKey, c: String, mods: Modifiers, text: Option<Seq<char>>)
    ensures
        !is_arrow(k) && k != NamedKey::Backspace && k != NamedKey::Enter ==> spec_key_actions(
            LogicalKey::Named(k),
            mods,
            text,
        ) == match text {
            Some(t) => seq![ActionKind::InsertText(t)],
            None => Seq::<ActionKind>::empty(),
        },
        is_arrow(k) ==> spec_key_actions(LogicalKey::Named(k), mods, text).len() == 2
            && spec_key_actions(LogicalKey::Named(k), mods, text)[0] == (if mods.shift {
            ActionKind::SelectionStart
        } else {
            ActionKind::SelectionClear
        }) && spec_key_actions(LogicalKey::Named(k), mods, text)[1] == ActionKind::Move(
            spec_cursor_move(k, mods.control).unwrap(),
        ),
        spec_key_actions(LogicalKey::Named(NamedKey::Backspace), mods, text) == seq![
            if mods.control { ActionKind::DeleteBackwardWord } else { ActionKind::DeleteBackwardChar },
        ],
        spec_key_actions(LogicalKey::Named(NamedKey::Enter), mods, text) == seq![ActionKind::InsertLine],
        mods.control && c@ == seq!['c'] ==> spec_key_actions(LogicalKey::Character(c), mods, text) == seq![
            ActionKind::Copy,
        ],
        mods.control && c@ == seq!['v'] ==> spec_key_actions(LogicalKey::Character(c), mods, text) == seq![
            ActionKind::Paste,
        ],
        mods.control && c@ == seq!['x'] ==> spec_key_actions(LogicalKey::Character(c), mods, text) == seq![
            ActionKind::Cut,
        ],
        !(mods.control && (c@ == seq!['c'] || c@ == seq!['v'] || c@ == seq!['x'])) ==> spec_key_actions(
            LogicalKey::Character(c),
            mods,
            text,
        ) == match text {
            Some(t) => seq![ActionKind::InsertText(t)],
            None => Seq::<ActionKind>::empty(),
        },
        spec_key_actions(LogicalKey::Unidentified, mods, text) == match text {
            Some(t) => seq![ActionKind::InsertText(t)],
            None => Seq::<ActionKind>::empty(),
        },
{
    assert(seq!['c'] != seq!['v']) by {
        assert(seq!['c'][0] != seq!['v'][0]);
    }
    assert(seq!['c'] != seq!['x']) by {
        assert(seq!['c'][0] != seq!['x'][0]);
    }
    assert(seq!['v'] != seq!['x']) by {
        assert(seq!['v'][0] != seq!['x'][0]);
    }
}

/// The actions that a key press sends to a text input, in order.
pub fn handle_input(input: KeyboardInput) -> (actions: Vec<Action>)
    ensures
        actions@.map_values(|a: Action| action_kind(a)) == spec_key_actions(
            input.key,
            input.modifiers,
            text_view(input.text),
        ),
{
    let ctrl = input.modifiers.control;
    let mut actions: Vec<Action> = Vec::new();
    let ghost expected = spec_key_actions(input.key, input.modifiers, text_view(input.text));
    match input.key {
        LogicalKey::Named(key) => {
            match handle_cursor_move(key, input.modifiers) {
                Some(m) => {
                    if input.modifiers.shift {
                        actions.push(Action::Editor(EditorAction::SelectionStart));
                    } else {
                        actions.push(Action::Editor(EditorAction::SelectionClear));
                    }
                    actions.push(Action::Editor(EditorAction::CursorMove(m)));
                    proof {
                        assert(actions@.map_values(|a: Action| action_kind(a)) =~= expected);
                    }
                    return actions;
                },
                None => {},
            }
            match key {
                NamedKey::Backspace => {
                    if ctrl {
                        actions.push(Action::Editor(EditorAction::Edit(EditAction::DeleteBackwardWord)));
                    } else {
                        actions.push(Action::Editor(EditorAction::Edit(EditAction::DeleteBackwardChar)));
                    }
                    proof {
                        assert(actions@.map_values(|a: Action| action_kind(a)) =~= expected);
                    }
                    return actions;
                },
                NamedKey::Enter => {
                    actions.push(Action::Editor(EditorAction::Edit(EditAction::InsertLine)));
                    proof {
                        assert(actions@.map_values(|a: Action| action_kind(a)) =~= expected);
                    }
                    return actions;
                },
                _ => {},
            }
        },
        LogicalKey::Character(c) => {
            let copy = String::from_str("c");
            let paste = String::from_str("v");
            let cut = String::from_str("x");
            proof {
                reveal_strlit("c");
                reveal_strlit("v");
                reveal_strlit("x");
                assert(copy@ == seq!['c']);
                assert(paste@ == seq!['v']);
                assert(cut@ == seq!['x']);
                assert(seq!['c'] != seq!['v']) by {
                    assert(seq!['c'][0] != seq!['v'][0]);
                }
                assert(seq!['c'] != seq!['x']) by {
                    assert(seq!['c'][0] != seq!['x'][0]);
                }
                assert(seq!['v'] != seq!['x']) by {
                    assert(seq!['v'][0] != seq!['x'][0]);
                }
            }
            if ctrl && c.eq(&copy) {
                actions.push(Action::Copy);
                proof {
                    assert(actions@.map_values(|a: Action| action_kind(a)) =~= expected);
                }
                return actions;
            } else if ctrl && c.eq(&paste) {
                actions.push(Action::Paste);
                proof {
                    assert(actions@.map_values(|a: Action| action_kind(a)) =~= expected);
                }
                return actions;
            } else if ctrl && c.eq(&cut) {
                actions.push(Action::Cut);
                proof {
                    assert(actions@.map_values(|a: Action| action_kind(a)) =~= expected);
                }
                return actions;
            }
        },
        LogicalKey::Unidentified => {},
    }
    if let Some(text) = input.text {
        actions.push(Action::Editor(EditorAction::Edit(EditAction::InsertText(text))));
    }
    proof {
        assert(actions@.map_values(|a: Action| action_kind(a)) =~= expected);
    }
    actions
}

/// The actions of a mouse press on the text: the selection starts from the cursor when shift is
/// held and is cleared otherwise; a press on a glyph moves the cursor there.
pub open spec fn spec_press_actions(shift: bool, hit: Option<CursorLocation>) -> Seq<ActionKind> {
    let first = if shift { ActionKind::SelectionStart } else { ActionKind::SelectionClear };
    match hit {
        Some(at) => seq![first, ActionKind::Move(CursorMove::SetPosition(at))],
        None => seq![first],
    }
}

/// The first action of a mouse press depends on shift alone: with shift it starts the selection
/// from the cursor, so that the selection runs to the pressed place, and without shift it clears
/// the selection, whether or not a glyph was hit. A press on a glyph then puts the cursor on it,
/// and a press elsewhere does nothing more.
pub proof fn lemma_press_first_action(shift: bool, hit: Option<CursorLocation>)
    ensures
        spec_press_actions(shift, hit).len() == (if hit is Some { 2int } else { 1int }),
        spec_press_actions(shift, hit)[0] == (if shift { ActionKind::SelectionStart } else { ActionKind::SelectionClear }),
        spec_press_actions(shift, hit)[0] == spec_press_actions(shift, None)[0],
        hit matches Some(at) ==> spec_press_actions(shift, hit)[1] == ActionKind::Move(CursorMove::SetPosition(at)),
{
}

/// The actions of a mouse press on a text input, and whether a drag selection starts (it does on
/// a glyph).
pub fn press_actions(shift: bool, hit: Option<CursorLocation>) -> (r: (Vec<Action>, bool))
    ensures
        r.0@.map_values(|a: Action| action_kind(a)) == spec_press_actions(shift, hit),
        r.1 == hit is Some,
{
    let mut actions: Vec<Action> = Vec::new();
    if shift {
        actions.push(Action::Editor(EditorAction::SelectionStart));
    } else {
        actions.push(Action::Editor(EditorAction::SelectionClear));
    }
    let dragging = match hit {
        Some(at) => {
            actions.push(Action::Editor(EditorAction::CursorMove(CursorMove::SetPosition(at))));
            true
        },
        None => false,
    };
    proof {
        assert(actions@.map_values(|a: Action| action_kind(a)) =~= spec_press_actions(shift, hit));
    }
    (actions, dragging)
}

/// The actions of a cursor movement during a drag selection: once the cursor is far enough from
/// where the drag started, over a glyph, the selection extends to it.
pub fn drag_select_actions(dragging: bool, beyond_threshold: bool, hit: Option<CursorLocation>) -> (actions: Vec<Action>)
    ensures
        actions@.map_values(|a: Action| action_kind(a)) == (match hit {
            Some(at) => if dragging && beyond_threshold {
                seq![ActionKind::SelectionStart, ActionKind::Move(CursorMove::SetPosition(at))]
            } else {
                Seq::<ActionKind>::empty()
            },
            None => Seq::<ActionKind>::empty(),
        }),
{
    let mut actions: Vec<Action> = Vec::new();
    if dragging && beyond_threshold {
        match hit {
            Some(at) => {
                actions.push(Action::Editor(EditorAction::SelectionStart));
                actions.push(Action::Editor(EditorAction::CursorMove(CursorMove::SetPosition(at))));
            },
            None => {},
        }
    }
    proof {
        assert(actions@.map_values(|a: Action| action_kind(a)) =~= (match hit {
            Some(at) => if dragging && beyond_threshold {
                seq![ActionKind::SelectionStart, ActionKind::Move(CursorMove::SetPosition(at))]
            } else {
                Seq::<ActionKind>::empty()
            },
            None => Seq::<ActionKind>::empty(),
        }));
    }
    actions
}

/// The actions of a change of focus: losing focus clears the selection.
pub fn focus_actions(focused: bool) -> (actions: Vec<Action>)
    ensures
        actions@.map_values(|a: Action| action_kind(a)) == (if focused {
            Seq::<ActionKind>::empty()
        } else {
            seq![ActionKind::SelectionClear]
        }),
{
    let mut actions: Vec<Action> = Vec::new();
    if !focused {
        actions.push(Action::Editor(EditorAction::SelectionClear));
    }
    proof {
        assert(actions@.map_values(|a: Action| action_kind(a)) =~= (if focused {
            Seq::<ActionKind>::empty()
        } else {
            seq![ActionKind::SelectionClear]
        }));
    }
    actions
}

/// The style of a text input: its cursor and selection colors, background, font size and
/// alignment.
#[derive(Debug, Clone, Copy, PartialEq, Eq, Structural)]
pub struct TextInputStyle {
    pub cursor_color: ColorRef,
    pub selection_color: ColorRef,
    pub background: Background,
    pub font_size: FontSize,
    pub align: Align,
}

/// The style of text inputs unless set otherwise.
pub open spec fn default_text_input_style() -> TextInputStyle {
    TextInputStyle {
        cursor_color: ColorRef::Surface(Role::Interactive, Tone::Accent),
        selection_color: ColorRef::Surface(Role::Hover, Tone::Accent),
        background: Background { color: ColorRef::Surface(Role::Interactive, Tone::Neutral) },
        font_size: FontSize::Px(16),
        align: Align::Start,
    }
}

impl Default for TextInputStyle {
    fn default() -> (s: Self)
        ensures
            s == default_text_input_style(),
    {
        Self {
            cursor_color: ColorRef::Surface(Role::Interactive, Tone::Accent),
            selection_color: ColorRef::Surface(Role::Hover, Tone::Accent),
            background: Background::new(ColorRef::Surface(Role::Interactive, Tone::Neutral)),
            font_size: FontSize::Px(16),
            align: Align::Start,
        }
    }
}

/// The size of a text input: at least 16 pixels wide and high, small margin and padding, default
/// corners.
pub open spec fn text_input_size() -> WidgetSizeProps {
    WidgetSizeProps {
        padding: Some(SpacingRef::Small),
        margin: Some(SpacingRef::Small),
        corner_radius: Some(RadiusRef::Default),
        min_size: Some(crate::style::PxSize { width: 16, height: 16 }),
        maximize: false,
    }
}

/// A text field for arbitrary input, editing the text behind the handle `content`.
pub struct TextInput<S> {
    pub style: TextInputStyle,
    pub content: S,
    pub size: WidgetSizeProps,
}

impl<S> Widget for TextInput<S> {}

impl<S> TextInput<S> {
    pub fn new(content: S) -> (t: Self)
        ensures
            t.content == content,
            t.style == default_text_input_style(),
            t.size == text_input_size(),
    {
        Self {
            content,
            style: TextInputStyle::default(),
            size: WidgetSizeProps::default().with_min_size(16, 16).with_margin(SpacingRef::Small).with_padding(
                SpacingRef::Small,
            ).with_corner_radius(RadiusRef::Default),
        }
    }

    pub fn with_style(self, style: TextInputStyle) -> (t: Self)
        ensures
            t.content == self.content,
            t.style == style,
            t.size == self.size,
    {
        Self { style, ..self }
    }
}

} // verus!
