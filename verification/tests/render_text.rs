use violet::input::{
    handle_cursor_move, handle_input, Action, CursorMove, EditAction, EditorAction, LogicalKey,
    KeyboardInput, Modifiers, NamedKey,
};
use violet::render::{
    blit_mask, coalesce_draw_commands, collect_draw_commands, draw_order, next_power_of_two,
    object_buffer_capacity, object_chunk_count, quad_indices, ImageFromColor,
    InstancedDrawCommand, CHUNK_SIZE,
};
use violet::text::{
    apply_row_change, clipboard_text, join_text_lines, dirty_rows, selection_spans, CursorLocation, GlyphSpan, LineGlyphs,
    RowAction, TextChange,
};

fn cmd(draw_cmd: u64, first_instance: u32, instance_count: u32) -> InstancedDrawCommand {
    InstancedDrawCommand { draw_cmd, first_instance, instance_count }
}

#[test]
fn equal_neighbouring_commands_are_merged() {
    let runs = coalesce_draw_commands(&vec![7, 7, 3, 3, 3, 7], 10);
    assert_eq!(runs, vec![cmd(7, 10, 2), cmd(3, 12, 3), cmd(7, 15, 1)]);
    assert!(coalesce_draw_commands(&vec![], 0).is_empty());
}

#[test]
fn draw_commands_are_split_into_chunks() {
    let entities: Vec<(u64, u32)> = (0..40).map(|i| (if i < 35 { 1 } else { 2 }, i)).collect();
    let mut objects = vec![99u32];
    let mut draw_cmds = Vec::new();
    collect_draw_commands(&entities, &mut objects, &mut draw_cmds);
    assert_eq!(objects.len(), 41);
    assert_eq!(objects[0], 99);
    assert_eq!(objects[40], 39);
    assert_eq!(
        draw_cmds,
        vec![(0, cmd(1, 0, 32)), (1, cmd(1, 0, 3)), (1, cmd(2, 3, 5))]
    );
    assert_eq!(CHUNK_SIZE, 32);
    assert_eq!(object_chunk_count(40), 2);
    assert_eq!(object_chunk_count(64), 2);
    assert_eq!(object_chunk_count(0), 0);
}

#[test]
fn powers_of_two() {
    assert_eq!(next_power_of_two(0), 1);
    assert_eq!(next_power_of_two(1), 1);
    assert_eq!(next_power_of_two(5), 8);
    assert_eq!(next_power_of_two(64), 64);
}

#[test]
fn object_buffer_grows_and_shrinks() {
    assert_eq!(object_buffer_capacity(4, 5), Some(8));
    assert_eq!(object_buffer_capacity(8, 5), None);
    assert_eq!(object_buffer_capacity(10, 5), None);
    assert_eq!(object_buffer_capacity(64, 5), Some(8));
    assert_eq!(object_buffer_capacity(8, 1), None);
    assert_eq!(object_buffer_capacity(9, 1), Some(1));
}

#[test]
fn glyph_quads_are_two_triangles() {
    assert_eq!(
        quad_indices(2),
        vec![0, 1, 2, 2, 3, 0, 4, 5, 6, 6, 7, 4]
    );
}

#[test]
fn draw_order_is_breadth_first() {
    let children = vec![vec![1, 2], vec![3], vec![], vec![], vec![]];
    assert_eq!(draw_order(&vec![0, 4], &children), vec![0, 4, 1, 2, 3]);
}

#[test]
fn glyph_masks_are_copied_row_by_row() {
    let src = vec![1, 2, 3, 4, 5, 6, 7];
    let mut dst = vec![0u8; 16];
    blit_mask(&src, 3, &mut dst, 1, 1, 4);
    assert_eq!(dst, vec![0, 0, 0, 0, 0, 1, 2, 3, 0, 4, 5, 6, 0, 0, 0, 0]);
}

#[test]
fn color_images_repeat_the_color() {
    let pixels = ImageFromColor([1, 2, 3, 4]).pixels();
    assert_eq!(pixels.len(), 32 * 32 * 4);
    assert_eq!(&pixels[0..8], &[1, 2, 3, 4, 1, 2, 3, 4]);
    assert_eq!(&pixels[pixels.len() - 4..], &[1, 2, 3, 4]);
}

fn mods(control: bool, shift: bool) -> Modifiers {
    Modifiers { control, shift }
}

#[test]
fn arrows_move_the_cursor() {
    assert_eq!(handle_cursor_move(NamedKey::ArrowLeft, mods(false, false)), Some(CursorMove::Left));
    assert_eq!(
        handle_cursor_move(NamedKey::ArrowLeft, mods(true, false)),
        Some(CursorMove::BackwardWord)
    );
    assert_eq!(
        handle_cursor_move(NamedKey::ArrowRight, mods(true, true)),
        Some(CursorMove::ForwardWord)
    );
    assert_eq!(handle_cursor_move(NamedKey::ArrowUp, mods(true, false)), Some(CursorMove::Up));
    assert_eq!(handle_cursor_move(NamedKey::Enter, mods(false, false)), None);
}

fn input(key: LogicalKey, control: bool, shift: bool, text: Option<&str>) -> KeyboardInput {
    KeyboardInput { key, modifiers: mods(control, shift), text: text.map(|t| t.to_string()) }
}

#[test]
fn shift_arrow_starts_a_selection() {
    let actions = handle_input(input(LogicalKey::Named(NamedKey::ArrowRight), false, true, None));
    assert_eq!(actions.len(), 2);
    assert!(matches!(actions[0], Action::Editor(EditorAction::SelectionStart)));
    assert!(matches!(actions[1], Action::Editor(EditorAction::CursorMove(CursorMove::Right))));
}

#[test]
fn plain_arrow_clears_the_selection() {
    let actions = handle_input(input(LogicalKey::Named(NamedKey::ArrowDown), false, false, None));
    assert_eq!(actions.len(), 2);
    assert!(matches!(actions[0], Action::Editor(EditorAction::SelectionClear)));
    assert!(matches!(actions[1], Action::Editor(EditorAction::CursorMove(CursorMove::Down))));
}

#[test]
fn backspace_and_enter_edit() {
    let actions = handle_input(input(LogicalKey::Named(NamedKey::Backspace), true, false, None));
    assert_eq!(actions.len(), 1);
    assert!(matches!(
        actions[0],
        Action::Editor(EditorAction::Edit(EditAction::DeleteBackwardWord))
    ));
    let actions = handle_input(input(LogicalKey::Named(NamedKey::Backspace), false, false, None));
    assert!(matches!(
        actions[0],
        Action::Editor(EditorAction::Edit(EditAction::DeleteBackwardChar))
    ));
    let actions = handle_input(input(LogicalKey::Named(NamedKey::Enter), false, false, Some("\r")));
    assert_eq!(actions.len(), 1);
    assert!(matches!(actions[0], Action::Editor(EditorAction::Edit(EditAction::InsertLine))));
}

#[test]
fn clipboard_shortcuts() {
    let copy = handle_input(input(LogicalKey::Character("c".to_string()), true, false, Some("c")));
    assert_eq!(copy.len(), 1);
    assert!(matches!(copy[0], Action::Copy));
    let paste = handle_input(input(LogicalKey::Character("v".to_string()), true, false, None));
    assert!(matches!(paste[0], Action::Paste));
    let cut = handle_input(input(LogicalKey::Character("x".to_string()), true, false, None));
    assert!(matches!(cut[0], Action::Cut));
}

#[test]
fn typed_text_is_inserted() {
    let actions = handle_input(input(LogicalKey::Character("c".to_string()), false, false, Some("c")));
    assert_eq!(actions.len(), 1);
    match &actions[0] {
        Action::Editor(EditorAction::Edit(EditAction::InsertText(t))) => assert_eq!(t, "c"),
        _ => panic!("expected an insertion"),
    }
    let none = handle_input(input(LogicalKey::Unidentified, false, false, None));
    assert!(none.is_empty());
}

fn loc(row: usize, col: usize) -> CursorLocation {
    CursorLocation { row, col }
}

#[test]
fn changes_mark_their_rows_dirty() {
    let text: Vec<String> = vec!["ab".into(), "cd".into(), "ef".into()];
    assert_eq!(
        dirty_rows(&text, TextChange::Insert(loc(0, 1), loc(1, 0))),
        vec![(0, Some("ab".to_string())), (1, Some("cd".to_string()))]
    );
    assert_eq!(
        dirty_rows(&text, TextChange::Delete(loc(2, 0), loc(5, 0))),
        vec![(2, Some("ef".to_string()))]
    );
    assert_eq!(dirty_rows(&text, TextChange::DeleteLine(1)), vec![(1, None)]);
    assert!(dirty_rows(&text, TextChange::Insert(loc(4, 0), loc(4, 1))).is_empty());
}

#[test]
fn row_changes_update_attach_or_detach() {
    let mut items = vec![10, 11, 12];
    assert_eq!(apply_row_change(&mut items, 1, true), RowAction::Update(11));
    assert_eq!(apply_row_change(&mut items, 3, true), RowAction::Attach);
    assert_eq!(apply_row_change(&mut items, 0, false), RowAction::Detach(10));
    assert_eq!(items, vec![11, 12]);
}

fn glyphs(spans: &[(usize, usize)]) -> Vec<GlyphSpan> {
    spans.iter().map(|&(start, end)| GlyphSpan { start, end }).collect()
}

#[test]
fn selection_covers_glyphs_between_its_ends() {
    let lines = vec![
        LineGlyphs { row: 0, glyphs: glyphs(&[(0, 1), (1, 2), (2, 3)]) },
        LineGlyphs { row: 1, glyphs: glyphs(&[(0, 1), (1, 2)]) },
        LineGlyphs { row: 2, glyphs: glyphs(&[(0, 1), (1, 2), (2, 3)]) },
    ];
    assert_eq!(
        selection_spans(&lines, loc(0, 1), loc(2, 2)),
        vec![(0, 1, 2), (1, 0, 1), (2, 0, 1)]
    );
    assert_eq!(selection_spans(&lines, loc(1, 0), loc(1, 1)), vec![(1, 0, 0)]);
    assert!(selection_spans(&lines, loc(1, 1), loc(1, 1)).is_empty());
}

#[test]
fn pressing_on_text_moves_the_cursor() {
    let (actions, dragging) = violet::input::press_actions(false, Some(loc(1, 2)));
    assert!(dragging);
    assert_eq!(actions.len(), 2);
    assert!(matches!(actions[0], Action::Editor(EditorAction::SelectionClear)));
    assert!(matches!(
        actions[1],
        Action::Editor(EditorAction::CursorMove(CursorMove::SetPosition(CursorLocation { row: 1, col: 2 })))
    ));
    let (actions, dragging) = violet::input::press_actions(true, None);
    assert!(!dragging);
    assert_eq!(actions.len(), 1);
    assert!(matches!(actions[0], Action::Editor(EditorAction::SelectionStart)));
}

#[test]
fn dragging_over_text_extends_the_selection() {
    let actions = violet::input::drag_select_actions(true, true, Some(loc(0, 3)));
    assert_eq!(actions.len(), 2);
    assert!(matches!(actions[0], Action::Editor(EditorAction::SelectionStart)));
    assert!(violet::input::drag_select_actions(true, false, Some(loc(0, 3))).is_empty());
    assert!(violet::input::drag_select_actions(false, true, Some(loc(0, 3))).is_empty());
    assert!(violet::input::drag_select_actions(true, true, None).is_empty());
}

#[test]
fn losing_focus_clears_the_selection() {
    let actions = violet::input::focus_actions(false);
    assert_eq!(actions.len(), 1);
    assert!(matches!(actions[0], Action::Editor(EditorAction::SelectionClear)));
    assert!(violet::input::focus_actions(true).is_empty());
}

#[test]
fn lines_are_joined_with_line_breaks() {
    assert_eq!(join_text_lines(&vec!["ab".to_string(), "".to_string(), "c".to_string()]), "ab\n\nc");
    assert_eq!(join_text_lines(&vec![]), "");
    assert_eq!(clipboard_text(Some(vec!["x".to_string(), "y".to_string()])), Some("x\ny".to_string()));
    assert_eq!(clipboard_text(None), None);
}

#[test]
fn runs_number_their_glyphs_across_the_row() {
    let runs = vec![glyphs(&[(0, 1), (1, 3)]), glyphs(&[]), glyphs(&[(3, 4)])];
    let out = violet::text::layout_runs(2, &runs);
    let view: Vec<(usize, usize, usize, usize)> =
        out.iter().map(|r| (r.row, r.start, r.end, r.first_index)).collect();
    assert_eq!(view, vec![(2, 0, 3, 0), (2, 3, 3, 2), (2, 3, 4, 2)]);
}

#[test]
fn text_inputs_start_with_the_default_style() {
    let t = violet::input::TextInput::new(5u8);
    assert_eq!(t.content, 5);
    assert_eq!(t.style, violet::input::TextInputStyle::default());
    assert_eq!(t.style.font_size, violet::basic::FontSize::Px(16));
    assert_eq!(t.size.min_size.map(|s| (s.width, s.height)), Some((16, 16)));
    assert_eq!(t.size.padding, Some(violet::style::SpacingRef::Small));
}
