use violet::container::{
    card, centered, centered_horizontal, centered_vertical, col, maximized, panel, pill,
    raised_card, row, ContainerStyle, Float, List, Stack,
};
use violet::editor::EditorMode;
use violet::interactive::{
    DragMove, DragRelease, DragState, checkbox_press, header_click_routing, radio_press, should_mount_content, ClickAction,
    ClickState, HeaderClick, HoverAction, HoverState, Press, DOUBLE_CLICK_TIMEOUT_NS,
};
use violet::interactive::{slider_cursor_move, slider_press, SliderMove, SliderPress};
use violet::layout::{Align, AxisFlags, Direction, LayoutAlignment};
use violet::style::{
    Background, ButtonStyle, ColorPair, ColorRef, RadiusRef, Role, SpacingRef, Tone,
    WidgetSizeProps,
};
use violet::unit::Unit;
use violet::utils::{throttle_answer, PollOutcome, StreamPoll, Throttle, ZipLatest};
use violet::widget::{
    is_selected, with_name, ChildSlot, Dropdown, EmptyWidget, FutureWidget, InputField,
    LoadingSpinner, SelectList, SignalWidget, SuspenseWidget, TimedWidget,
};

#[test]
fn units() {
    let u = Unit::new(3, 2);
    assert_eq!((u.px, u.rel), (3, 2));
    assert_eq!(u.resolve(10), 23);
    assert_eq!(Unit::px(5).rel, 0);
    assert_eq!(Unit::rel(4i32).px, 0);
    assert_eq!(Unit::<i32>::default(), Unit::new(0, 0));
}

#[test]
fn stack_builders_set_one_thing_each() {
    let s = Stack::new(EmptyWidget)
        .with_horizontal_alignment(Align::Center)
        .with_vertical_alignment(Align::End)
        .with_background(Background::new(ColorRef::SurfaceTertiary));
    assert_eq!(s.layout.alignment, LayoutAlignment::new(Align::Center, Align::End));
    assert_eq!(s.style.background, Some(Background::new(ColorRef::SurfaceTertiary)));
    assert_eq!(s.size, WidgetSizeProps::default());
    let s = s.with_alignment(LayoutAlignment::center()).with_background_opt(None);
    assert_eq!(s.layout.alignment.vertical, Align::Center);
    assert_eq!(s.style.background, None);
    let s = s.with_clip(AxisFlags::new(false, true));
    assert!(s.layout.clip.vertical && !s.layout.clip.horizontal);
}

#[test]
fn list_builders_set_one_thing_each() {
    let l = List::new(EmptyWidget)
        .with_direction(Direction::Vertical)
        .with_reverse(true)
        .with_contain_margins(true)
        .with_stretch(true)
        .center();
    assert_eq!(l.layout.direction, Direction::Vertical);
    assert!(l.layout.reverse && l.layout.contain_margins && l.layout.stretch);
    assert_eq!(l.layout.cross_align, Align::Center);
    let l = l.with_cross_align(Align::End).with_background(Background::new(ColorRef::SurfaceSecondary));
    assert_eq!(l.layout.cross_align, Align::End);
    assert!(l.style.background.is_some());
}

#[test]
fn rows_columns_and_centering() {
    assert_eq!(row(EmptyWidget).layout.direction, Direction::Horizontal);
    assert_eq!(col(EmptyWidget).layout.direction, Direction::Vertical);
    assert_eq!(centered(EmptyWidget).layout.alignment, LayoutAlignment::center());
    let v = centered_vertical(EmptyWidget).layout.alignment;
    assert_eq!((v.horizontal, v.vertical), (Align::Start, Align::Center));
    let h = centered_horizontal(EmptyWidget).layout.alignment;
    assert_eq!((h.horizontal, h.vertical), (Align::Center, Align::Start));
    assert!(maximized(EmptyWidget).size.maximize);
    let _float = Float::new(EmptyWidget);
}

#[test]
fn cards_and_panels() {
    let c = card(EmptyWidget);
    assert_eq!(c.style.background, Some(Background::new(ColorRef::SurfaceSecondary)));
    assert_eq!(c.size.padding, Some(SpacingRef::DefaultSeparation));
    assert_eq!(c.size.margin, Some(SpacingRef::DefaultSeparation));
    assert_eq!(c.size.corner_radius, Some(RadiusRef::Default));
    let r = raised_card(EmptyWidget);
    assert_eq!(r.style.background, Some(Background::new(ColorRef::SurfaceTertiary)));
    assert_eq!(r.size, c.size);
    let p = panel(EmptyWidget);
    assert_eq!(p.size.padding, Some(SpacingRef::DefaultSeparation));
    assert_eq!(p.size.margin, None);
    let pl = pill(EmptyWidget);
    assert_eq!(pl.size.padding, Some(SpacingRef::Small));
    assert_eq!(ContainerStyle { background: None }.mount(), None);
    assert_eq!(
        ContainerStyle { background: Some(Background::new(ColorRef::SurfaceTertiary)) }.mount(),
        Some(Background::new(ColorRef::SurfaceTertiary))
    );
}

#[test]
fn button_styles() {
    let d = ButtonStyle::default();
    assert_eq!(d.normal.surface, ColorRef::Surface(Role::Interactive, Tone::Neutral));
    assert_eq!(d.size.padding, Some(SpacingRef::Medium));
    let danger = ButtonStyle::danger();
    assert_eq!(danger.pressed.element, ColorRef::Element(Role::Pressed, Tone::Danger));
    assert_eq!(ButtonStyle::success().hover.surface, ColorRef::Surface(Role::Hover, Tone::Success));
    assert_eq!(ButtonStyle::warning().normal.element, ColorRef::Element(Role::Interactive, Tone::Warning));
    assert_eq!(ButtonStyle::accent().normal.surface, ColorRef::Surface(Role::Interactive, Tone::Accent));
    let radio = ButtonStyle::radio();
    assert_eq!(radio.size.corner_radius, Some(RadiusRef::Round));
    assert_eq!(radio.size.min_size.map(|s| (s.width, s.height)), Some((20, 20)));
    let hidden = ButtonStyle::hidden();
    assert_eq!(hidden.hover.element, ColorRef::Value(violet::color::Rgba8 { red: 0, green: 0, blue: 0, alpha: 255 }));
    assert_eq!(ButtonStyle::selectable_entry().size.margin, Some(SpacingRef::Small));
    let custom = ButtonStyle::new(ColorPair::new(ColorRef::SurfaceSecondary, ColorRef::SurfaceTertiary), d.pressed, d.hover);
    assert_eq!(custom.normal.element, ColorRef::SurfaceTertiary);
    assert_eq!(custom.colors_for(true), d.pressed);
    assert_eq!(custom.colors_for(false), custom.normal);
}

#[test]
fn widget_constructors_keep_their_parts() {
    assert_eq!(with_name(EmptyWidget, "root".to_string()).name, "root");
    assert_eq!(FutureWidget::new(5).0, 5);
    let s = SuspenseWidget::new(EmptyWidget, 7);
    assert_eq!(s.future, 7);
    assert_eq!(SignalWidget::new(3).0, 3);
    assert_eq!(LoadingSpinner::new("Loading".to_string()).text, "Loading");
    assert_eq!(TimedWidget::new(EmptyWidget, 5000).lifetime_ms, 5000);
    let d = Dropdown::new(1u8, vec![EmptyWidget]);
    assert_eq!((d.selection, d.items.len()), (1, 1));
    let f = InputField::new("Width".to_string(), 2u8);
    assert_eq!(f.label, "Width");
    let l = SelectList::new(0u8, vec![1, 2]);
    assert_eq!(l.items, vec![1, 2]);
    assert!(is_selected(Some(1), 1));
    assert!(!is_selected(Some(1), 2));
    assert!(!is_selected(None, 0));
}

#[test]
fn each_new_child_replaces_the_previous_one() {
    let mut slot = ChildSlot::new();
    assert_eq!(slot.replace(4), None);
    assert_eq!(slot.replace(9), Some(4));
    assert_eq!(slot.child, Some(9));
}

#[test]
fn editor_modes() {
    assert!(EditorMode::Oklch.is_oklch());
    assert!(!EditorMode::Oklch.is_rgb());
    assert!(EditorMode::Rgb.is_rgb());
    assert!(!EditorMode::Rgb.is_oklch());
}

const MS: u64 = 1_000_000;

#[test]
fn click_without_double_click_handler_is_immediate() {
    let mut s = ClickState::new();
    assert_eq!(s.on_mouse_input(Press::Pressed, 0, false, true), ClickAction::Nothing);
    assert_eq!(s.on_mouse_input(Press::Released, 10 * MS, false, true), ClickAction::Click);
    assert_eq!(s.on_mouse_input(Press::Released, 20 * MS, false, true), ClickAction::Nothing);
}

#[test]
fn double_click_aborts_the_delayed_click() {
    let mut s = ClickState::new();
    s.on_mouse_input(Press::Pressed, 0, true, true);
    assert_eq!(s.on_mouse_input(Press::Released, 10 * MS, true, true), ClickAction::ScheduleClick);
    s.on_mouse_input(Press::Pressed, 100 * MS, true, true);
    assert_eq!(
        s.on_mouse_input(Press::Released, 200 * MS, true, true),
        ClickAction::DoubleClick { abort: true }
    );
    assert!(!s.scheduled);
}

#[test]
fn a_late_second_click_is_a_new_click() {
    let mut s = ClickState::new();
    s.on_mouse_input(Press::Pressed, 0, true, true);
    s.on_mouse_input(Press::Released, 0, true, true);
    s.on_mouse_input(Press::Pressed, DOUBLE_CLICK_TIMEOUT_NS, true, true);
    assert_eq!(
        s.on_mouse_input(Press::Released, DOUBLE_CLICK_TIMEOUT_NS, true, true),
        ClickAction::ScheduleClick
    );
    assert_eq!(s.last_click, Some(DOUBLE_CLICK_TIMEOUT_NS));
}

#[test]
fn tooltip_opens_only_while_hovering() {
    let mut h = HoverState::new();
    assert_eq!(h.on_hover(false, true), HoverAction::ScheduleTooltip);
    assert_eq!(h.on_hover(false, true), HoverAction::Nothing);
    assert!(h.on_tooltip_delay());
    assert!(h.tooltip_open);
    assert_eq!(h.on_hover(true, true), HoverAction::CloseTooltip);
    assert!(!h.is_hovering && !h.tooltip_open);
    assert_eq!(h.on_hover(false, true), HoverAction::ScheduleTooltip);
    assert_eq!(h.on_hover(true, true), HoverAction::Nothing);
    assert!(!h.on_tooltip_delay());
    assert!(!h.tooltip_open);
    assert_eq!(HoverState::new().on_hover(false, false), HoverAction::Nothing);
}

#[test]
fn checkboxes_toggle_and_radios_set() {
    assert_eq!(checkbox_press(Press::Pressed, Some(false)), Some(true));
    assert_eq!(checkbox_press(Press::Pressed, Some(true)), Some(false));
    assert_eq!(checkbox_press(Press::Pressed, None), None);
    assert_eq!(checkbox_press(Press::Released, Some(true)), None);
    assert_eq!(radio_press(Press::Pressed), Some(true));
    assert_eq!(radio_press(Press::Released), None);
}

#[test]
fn collapsible_headers() {
    assert_eq!(header_click_routing(true), (HeaderClick::Handler, Some(HeaderClick::Toggle)));
    assert_eq!(header_click_routing(false), (HeaderClick::Toggle, None));
    assert!(should_mount_content(false, false));
    assert!(!should_mount_content(true, false));
    assert!(!should_mount_content(false, true));
}

#[test]
fn zip_latest_waits_for_both_streams() {
    let mut z: ZipLatest<(), (), (), u8, char> = ZipLatest::new((), (), ());
    assert!(!z.receive(Some(Some(1)), None));
    assert!(!z.receive(None, None));
    assert!(z.receive(None, Some(Some('a'))));
    assert!(z.receive(Some(Some(2)), None));
    assert_eq!((z.a_item, z.b_item), (Some(2), Some('a')));
    assert!(!z.receive(Some(None), None));
    assert_eq!(z.a_item, None);
}

#[test]
fn throttle_passes_items_and_starts_timers() {
    let mut t: Throttle<(), (), ()> = Throttle::new((), ());
    assert!(!t.skip && !t.is_waiting());
    assert_eq!(throttle_answer(false, StreamPoll::Item(4)), (PollOutcome::Ready(Some(4)), true));
    assert_eq!(throttle_answer(false, StreamPoll::<u8>::NotReady), (PollOutcome::Pending, false));
    assert_eq!(throttle_answer(false, StreamPoll::<u8>::Ended), (PollOutcome::Ready(None), true));
    assert_eq!(throttle_answer(true, StreamPoll::<u8>::NotReady), (PollOutcome::Ready(None), true));
    assert_eq!(throttle_answer(true, StreamPoll::<u8>::Ended), (PollOutcome::Ready(None), false));
    t.pending = Some(());
    assert!(t.is_waiting());
    t.timer_finished();
    assert!(!t.is_waiting());
    assert!(Throttle::<(), (), ()>::skip((), ()).skip);
}

#[test]
fn drags_open_one_preview_and_drop_on_release() {
    let mut d = DragState::new();
    assert_eq!(d.on_cursor_move(true), DragMove { move_preview: false, open_preview: false });
    d.on_press();
    assert_eq!(d.on_cursor_move(false), DragMove { move_preview: false, open_preview: false });
    assert_eq!(d.on_cursor_move(true), DragMove { move_preview: true, open_preview: true });
    assert_eq!(d.on_cursor_move(true), DragMove { move_preview: true, open_preview: false });
    assert_eq!(d.on_release(), DragRelease { close_preview: true, drop: true });
    assert_eq!(d, DragState::new());
    d.on_press();
    assert_eq!(d.on_release(), DragRelease { close_preview: false, drop: false });
}

#[test]
fn units_add_and_subtract_part_by_part() {
    let a = Unit::new(3i32, -2i32);
    let b = Unit::new(10i32, 5i32);
    assert_eq!(a + b, Unit::new(13, 3));
    assert_eq!(b - a, Unit::new(7, 7));
    let mut c = a;
    c.add_assign(b);
    assert_eq!(c, Unit::new(13, 3));
    c.sub_assign(b);
    assert_eq!(c, a);
}

#[test]
fn clicks_follow_each_press_release_pair() {
    let mut s = ClickState::new();
    let events = [
        (Press::Released, 0u64),
        (Press::Pressed, 1),
        (Press::Released, 2),
        (Press::Released, 3),
        (Press::Pressed, 4),
        (Press::Pressed, 5),
        (Press::Released, 6),
    ];
    let actions: Vec<ClickAction> =
        events.iter().map(|&(p, t)| s.on_mouse_input(p, t, false, true)).collect();
    assert_eq!(
        actions,
        vec![
            ClickAction::Nothing,
            ClickAction::Nothing,
            ClickAction::Click,
            ClickAction::Nothing,
            ClickAction::Nothing,
            ClickAction::Nothing,
            ClickAction::Click,
        ]
    );
}

#[test]
fn checkbox_presses_alternate_the_value() {
    let mut current = Some(false);
    let mut sent = Vec::new();
    for p in [Press::Pressed, Press::Released, Press::Pressed, Press::Pressed] {
        let s = checkbox_press(p, current);
        if s.is_some() {
            current = s;
        }
        sent.push(s);
    }
    assert_eq!(sent, vec![Some(true), None, Some(false), Some(true)]);
    assert_eq!(checkbox_press(Press::Pressed, None), None);
}

#[test]
fn radio_only_ever_sends_true() {
    for p in [Press::Pressed, Press::Released, Press::Pressed] {
        assert_ne!(radio_press(p), Some(false));
    }
    assert_eq!(radio_press(Press::Pressed), Some(true));
    assert_eq!(radio_press(Press::Released), None);
}

#[test]
fn throttle_passes_items_in_order() {
    let polls = vec![
        StreamPoll::Item(1),
        StreamPoll::NotReady,
        StreamPoll::Item(2),
        StreamPoll::Item(3),
        StreamPoll::Ended,
    ];
    let mut passed = Vec::new();
    let mut timers = 0;
    for p in polls {
        let (answer, starts) = throttle_answer(false, p);
        if let PollOutcome::Ready(Some(v)) = answer {
            passed.push(v);
        }
        if let PollOutcome::Ready(_) = answer {
            assert!(starts);
        }
        if starts {
            timers += 1;
        }
    }
    assert_eq!(passed, vec![1, 2, 3]);
    assert_eq!(timers, 4);
}

#[test]
fn slider_presses_drag_near_the_handle_and_jump_elsewhere() {
    assert_eq!(slider_press(Press::Pressed, Some(true)), SliderPress::StartDrag);
    assert_eq!(slider_press(Press::Pressed, Some(false)), SliderPress::JumpToPointer);
    assert_eq!(slider_press(Press::Pressed, None), SliderPress::JumpToPointer);
    assert_eq!(slider_press(Press::Released, Some(true)), SliderPress::Nothing);
    assert_eq!(slider_cursor_move(true), SliderMove::Scrub);
    assert_eq!(slider_cursor_move(false), SliderMove::JumpToPointer);
}
