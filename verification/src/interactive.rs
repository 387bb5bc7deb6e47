use vstd::prelude::*;

verus! {

/// How long after a click, in nanoseconds, a second click counts as a double click.
pub const DOUBLE_CLICK_TIMEOUT_NS: u64 = 250_000_000;

/// A mouse button going down or up.
#[derive(Debug, Clone, Copy, PartialEq, Eq, Structural)]
pub enum Press {
    Pressed,
    Released,
}

/// What a mouse input asks the interactive widget to do.
#[derive(Debug, Clone, Copy, PartialEq, Eq, Structural)]
pub enum ClickAction {
    /// Nothing.
    Nothing,
    /// Call the click handler now.
    Click,
    /// Call the click handler once the double click timeout has passed, unless aborted.
    ScheduleClick,
    /// Abort the scheduled click, if `abort`, and call the double click handler.
    DoubleClick { abort: bool },
}

/// The click state of an interactive widget: whether the button is down on it, when the last
/// click that waits for a second one happened (in nanoseconds), and whether a delayed click is
/// held.
#[derive(Debug, Clone, Copy, PartialEq, Eq, Structural)]
pub struct ClickState {
    pub is_pressed: bool,
    pub last_click: Option<u64>,
    pub scheduled: bool,
}

/// Whether `now` falls within the double click timeout after `last`; an earlier `now` counts as no
/// time elapsed.
pub open spec fn within_double_click(last: u64, now: u64) -> bool {
    now < last + DOUBLE_CLICK_TIMEOUT_NS
}

/// The state after a mouse input, and what the widget does: a press arms the widget; a release
/// of an armed widget is a click, which is the second half of a double click when it comes soon
/// enough after a delayed one, is delayed when the widget handles double clicks, and is passed on
/// at once otherwise.
pub open spec fn click_step(s: ClickState, press: Press, now: u64, has_double_click: bool, has_click: bool) -> (ClickState, ClickAction) {
    match press {
        Press::Pressed => (ClickState { is_pressed: true, ..s }, ClickAction::Nothing),
        Press::Released => if !s.is_pressed {
            (s, ClickAction::Nothing)
        } else {
            let released = ClickState { is_pressed: false, ..s };
            match s.last_click {
                Some(t) if within_double_click(t, now) => (
                    ClickState { scheduled: false, ..released },
                    ClickAction::DoubleClick { abort: s.scheduled },
                ),
                _ => if has_double_click {
                    (
                        ClickState { last_click: Some(now), scheduled: true, ..released },
                        ClickAction::ScheduleClick,
                    )
                } else if has_click {
                    (released, ClickAction::Click)
                } else {
                    (released, ClickAction::Nothing)
                },
            }
        },
    }
}

impl ClickState {
    pub fn new() -> (s: Self)
        ensures
            !s.is_pressed,
            s.last_click is None,
            !s.scheduled,
    {
        Self { is_pressed: false, last_click: None, scheduled: false }
    }

    /// Handles a mouse input at time `now`, for a widget with or without click and double click
    /// handlers.
    pub fn on_mouse_input(&mut self, press: Press, now: u64, has_double_click: bool, has_click: bool) -> (action: ClickAction)
        ensures
            (*final(self), action) == click_step(*old(self), press, now, has_double_click, has_click),
    {
        match press {
            Press::Pressed => {
                self.is_pressed = true;
                ClickAction::Nothing
            },
            Press::Released => {
                if !self.is_pressed {
                    return ClickAction::Nothing;
                }
                self.is_pressed = false;
                let within = match self.last_click {
                    Some(t) => now < t || now - t < DOUBLE_CLICK_TIMEOUT_NS,
                    None => false,
                };
                if within {
                    let abort = self.scheduled;
                    self.scheduled = false;
                    ClickAction::DoubleClick { abort }
                } else if has_double_click {
                    self.last_click = Some(now);
                    self.scheduled = true;
                    ClickAction::ScheduleClick
                } else if has_click {
                    ClickAction::Click
                } else {
                    ClickAction::Nothing
                }
            },
        }
    }
}

/// A release that does not end a press on the widget does nothing and changes nothing.
pub proof fn lemma_release_without_press(s: ClickState, now: u64, has_double_click: bool, has_click: bool)
    requires
        !s.is_pressed,
    ensures
        click_step(s, Press::Released, now, has_double_click, has_click) == (s, ClickAction::Nothing),
{
}

/// On a widget with a double click handler and no click waiting for a second one, two clicks
/// in a row, the second within the timeout of the first, delay the first click and then abort it
/// for the double click; the widget ends released, with nothing held.
pub proof fn lemma_double_click(s: ClickState, t1: u64, t2: u64, t3: u64, t4: u64, has_click: bool)
    requires
        s.last_click is None,
        t2 <= t3 <= t4,
        t4 < t2 + DOUBLE_CLICK_TIMEOUT_NS,
    ensures
        ({
            let (s1, a1) = click_step(s, Press::Pressed, t1, true, has_click);
            let (s2, a2) = click_step(s1, Press::Released, t2, true, has_click);
            let (s3, a3) = click_step(s2, Press::Pressed, t3, true, has_click);
            let (s4, a4) = click_step(s3, Press::Released, t4, true, has_click);
            &&& a1 == ClickAction::Nothing
            &&& a2 == ClickAction::ScheduleClick
            &&& a3 == ClickAction::Nothing
            &&& a4 == (ClickAction::DoubleClick { abort: true })
            &&& !s4.is_pressed
            &&& !s4.scheduled
        }),
{
}

/// On a widget without a double click handler, a press followed by a release clicks at once when
/// no earlier click is waiting for a second one.
pub proof fn lemma_single_click(s: ClickState, t1: u64, t2: u64)
    requires
        s.last_click is None,
    ensures
        ({
            let (s1, a1) = click_step(s, Press::Pressed, t1, false, true);
            let (s2, a2) = click_step(s1, Press::Released, t2, false, true);
            &&& a1 == ClickAction::Nothing
            &&& a2 == ClickAction::Click
            &&& !s2.is_pressed
        }),
{
}

/// The state after a run of mouse inputs, each a press or release with its time, and the
/// action of each.
pub open spec fn click_run(s: ClickState, events: Seq<(Press, u64)>, has_double_click: bool, has_click: bool) -> (ClickState, Seq<ClickAction>)
    decreases events.len(),
{
    if events.len() == 0 {
        (s, Seq::empty())
    } else {
        let (next, action) = click_step(s, events[0].0, events[0].1, has_double_click, has_click);
        let (last, actions) = click_run(next, events.drop_first(), has_double_click, has_click);
        (last, seq![action] + actions)
    }
}

/// Whether the button is down on the widget just before input `i` of a run: the previous input
/// was a press, or, for the first input, the widget started pressed.
pub open spec fn pressed_before(s: ClickState, events: Seq<(Press, u64)>, i: int) -> bool {
    if i == 0 {
        s.is_pressed
    } else {
        events[i - 1].0 == Press::Pressed
    }
}

/// On a widget with a click handler and no double click handler, over any run of inputs, the
/// click handler is called exactly for each release that ends a press on the widget, never on
/// a press and never for a release without a press before it.
pub proof fn lemma_clicks_follow_presses(s: ClickState, events: Seq<(Press, u64)>)
    requires
        s.last_click is None,
    ensures
        click_run(s, events, false, true).1.len() == events.len(),
        click_run(s, events, false, true).0.last_click is None,
        forall|i: int|
            0 <= i < events.len() ==> #[trigger] click_run(s, events, false, true).1[i] == if events[i].0
                == Press::Released && pressed_before(s, events, i) {
                ClickAction::Click
            } else {
                ClickAction::Nothing
            },
    decreases events.len(),
{
    if events.len() > 0 {
        let (next, action) = click_step(s, events[0].0, events[0].1, false, true);
        let rest = events.drop_first();
        lemma_clicks_follow_presses(next, rest);
        let run = click_run(s, events, false, true);
        assert(next.is_pressed == (events[0].0 == Press::Pressed));
        assert forall|i: int| 0 <= i < events.len() implies #[trigger] run.1[i] == if events[i].0
            == Press::Released && pressed_before(s, events, i) {
            ClickAction::Click
        } else {
            ClickAction::Nothing
        } by {
            if i > 0 {
                assert(run.1[i] == click_run(next, rest, false, true).1[i - 1]);
                assert(rest[i - 1] == events[i]);
                if i > 1 {
                    assert(rest[i - 2] == events[i - 1]);
                }
            }
        }
    }
}

/// What a hover event asks the interactive widget to do.
#[derive(Debug, Clone, Copy, PartialEq, Eq, Structural)]
pub enum HoverAction {
    Nothing,
    /// Open the tooltip once its delay has passed, if the cursor is still on the widget.
    ScheduleTooltip,
    /// Close the open tooltip.
    CloseTooltip,
}

/// Whether the cursor is on the widget and whether its tooltip is open.
#[derive(Debug, Clone, Copy, PartialEq, Eq, Structural)]
pub struct HoverState {
    pub is_hovering: bool,
    pub tooltip_open: bool,
}

/// The state after a hover event, and what the widget does: leaving closes the tooltip; entering
/// starts the tooltip's delay when the widget has one.
pub open spec fn hover_step(s: HoverState, exited: bool, has_tooltip: bool) -> (HoverState, HoverAction) {
    if exited {
        (
            HoverState { is_hovering: false, tooltip_open: false },
            if s.tooltip_open { HoverAction::CloseTooltip } else { HoverAction::Nothing },
        )
    } else if !s.tooltip_open && !s.is_hovering {
        (
            HoverState { is_hovering: true, ..s },
            if has_tooltip { HoverAction::ScheduleTooltip } else { HoverAction::Nothing },
        )
    } else {
        (s, HoverAction::Nothing)
    }
}

/// The state after a tooltip's delay has passed, and whether the tooltip opens: only while the
/// cursor is still on the widget.
pub open spec fn tooltip_step(s: HoverState) -> (HoverState, bool) {
    if s.is_hovering {
        (HoverState { tooltip_open: true, ..s }, true)
    } else {
        (s, false)
    }
}

/// An open tooltip belongs to a hovered widget.
pub open spec fn hover_inv(s: HoverState) -> bool {
    s.tooltip_open ==> s.is_hovering
}

impl HoverState {
    pub fn new() -> (s: Self)
        ensures
            !s.is_hovering,
            !s.tooltip_open,
    {
        Self { is_hovering: false, tooltip_open: false }
    }

    /// Handles the cursor entering, moving on or leaving (`exited`) the widget.
    pub fn on_hover(&mut self, exited: bool, has_tooltip: bool) -> (action: HoverAction)
        ensures
            (*final(self), action) == hover_step(*old(self), exited, has_tooltip),
    {
        if exited {
            let was_open = self.tooltip_open;
            self.is_hovering = false;
            self.tooltip_open = false;
            if was_open { HoverAction::CloseTooltip } else { HoverAction::Nothing }
        } else if !self.tooltip_open && !self.is_hovering {
            self.is_hovering = true;
            if has_tooltip { HoverAction::ScheduleTooltip } else { HoverAction::Nothing }
        } else {
            HoverAction::Nothing
        }
    }

    /// Handles the end of a tooltip's delay: returns whether to open the tooltip.
    pub fn on_tooltip_delay(&mut self) -> (open: bool)
        ensures
            (*final(self), open) == tooltip_step(*old(self)),
    {
        if self.is_hovering {
            self.tooltip_open = true;
            true
        } else {
            false
        }
    }
}

/// Every hover event and every tooltip delay keeps an open tooltip on a hovered widget, and
/// leaving the widget always closes its tooltip.
pub proof fn lemma_hover_inv(s: HoverState, exited: bool, has_tooltip: bool)
    requires
        hover_inv(s),
    ensures
        hover_inv(hover_step(s, exited, has_tooltip).0),
        hover_inv(tooltip_step(s).0),
        exited ==> !hover_step(s, exited, has_tooltip).0.tooltip_open
            && !hover_step(s, exited, has_tooltip).0.is_hovering,
{
}

/// A tooltip whose delay ends after the cursor left does not open.
pub proof fn lemma_tooltip_after_exit(s: HoverState, has_tooltip: bool)
    ensures
        !tooltip_step(hover_step(s, true, has_tooltip).0).1,
        !tooltip_step(hover_step(s, true, has_tooltip).0).0.tooltip_open,
{
}

/// The value a checkbox sends when pressed: the opposite of its current value, once it is known.
pub open spec fn spec_checkbox_press(press: Press, current: Option<bool>) -> Option<bool> {
    match (press, current) {
        (Press::Pressed, Some(v)) => Some(!v),
        _ => None,
    }
}

/// Handles a mouse input on a checkbox: returns the value to send, if any.
pub fn checkbox_press(press: Press, current: Option<bool>) -> (send: Option<bool>)
    ensures
        send == spec_checkbox_press(press, current),
{
    match (press, current) {
        (Press::Pressed, Some(v)) => Some(!v),
        _ => None,
    }
}

/// Pressing a checkbox twice gives back its value.
pub proof fn lemma_checkbox_twice(v: bool)
    ensures
        spec_checkbox_press(Press::Pressed, spec_checkbox_press(Press::Pressed, Some(v))) == Some(v),
{
}

/// The values sent by a checkbox over a run of mouse inputs, when each value sent comes back as
/// its current value before the next input.
pub open spec fn checkbox_run(current: Option<bool>, events: Seq<Press>) -> Seq<Option<bool>>
    decreases events.len(),
{
    if events.len() == 0 {
        Seq::empty()
    } else {
        let sent = spec_checkbox_press(events[0], current);
        let next = if sent is Some { sent } else { current };
        seq![sent] + checkbox_run(next, events.drop_first())
    }
}

/// The number of presses among the first `n` inputs.
pub open spec fn presses_in(events: Seq<Press>, n: int) -> nat
    decreases n,
{
    if n <= 0 {
        0
    } else {
        presses_in(events, n - 1) + if events[n - 1] == Press::Pressed { 1nat } else { 0nat }
    }
}

/// Over any run of inputs on a checkbox whose value `b` is known: each press sends exactly one
/// value, the opposite of the value after the presses before it, and a release sends nothing.
/// Before a value is known nothing is sent.
pub proof fn lemma_checkbox_run(current: Option<bool>, events: Seq<Press>)
    ensures
        checkbox_run(current, events).len() == events.len(),
        current is None ==> forall|i: int| 0 <= i < events.len() ==> #[trigger] checkbox_run(current, events)[i] is None,
        forall|i: int|
            0 <= i < events.len() && current is Some ==> #[trigger] checkbox_run(current, events)[i] == if events[i]
                == Press::Pressed {
                Some(current.unwrap() != (presses_in(events, i) % 2 == 0))
            } else {
                None::<bool>
            },
    decreases events.len(),
{
    if events.len() > 0 {
        let sent = spec_checkbox_press(events[0], current);
        let next = if sent is Some { sent } else { current };
        let rest = events.drop_first();
        lemma_checkbox_run(next, rest);
        let run = checkbox_run(current, events);
        assert(run.drop_first() == checkbox_run(next, rest));
        assert forall|i: int| 0 <= i < events.len() && current is Some implies #[trigger] run[i] == if events[i]
            == Press::Pressed {
            Some(current.unwrap() != (presses_in(events, i) % 2 == 0))
        } else {
            None::<bool>
        } by {
            lemma_presses_shift(events, i);
            if i > 0 {
                assert(run[i] == checkbox_run(next, rest)[i - 1]);
                assert(rest[i - 1] == events[i]);
            }
        }
        if current is None {
            assert forall|i: int| 0 <= i < events.len() implies #[trigger] run[i] is None by {
                if i > 0 {
                    assert(run[i] == checkbox_run(next, rest)[i - 1]);
                }
            }
        }
    }
}

/// Counting presses from the second input on counts those of the first `i` inputs but the first.
proof fn lemma_presses_shift(events: Seq<Press>, i: int)
    requires
        0 <= i <= events.len(),
        events.len() > 0,
    ensures
        i > 0 ==> presses_in(events, i) == presses_in(events.drop_first(), i - 1) + if events[0]
            == Press::Pressed { 1nat } else { 0nat },
    decreases i,
{
    if i > 1 {
        lemma_presses_shift(events, i - 1);
        assert(events.drop_first()[i - 2] == events[i - 1]);
    } else if i == 1 {
        assert(presses_in(events, 0) == 0);
        assert(presses_in(events.drop_first(), 0) == 0);
    }
}

/// What a radio button or selectable entry sends on a mouse input: `true` on a press.
pub open spec fn spec_radio_press(press: Press) -> Option<bool> {
    if press == Press::Pressed {
        Some(true)
    } else {
        None::<bool>
    }
}

/// Handles a mouse input on a radio button or selectable entry: a press selects it.
pub fn radio_press(press: Press) -> (send: Option<bool>)
    ensures
        send == spec_radio_press(press),
{
    match press {
        Press::Pressed => Some(true),
        Press::Released => None,
    }
}

/// Over any run of inputs a radio button sends only `true`, exactly once per press, so pressing
/// a selected radio button leaves it selected.
pub proof fn lemma_radio_never_clears(events: Seq<Press>)
    ensures
        forall|i: int| 0 <= i < events.len() ==> #[trigger] spec_radio_press(events[i]) != Some(false),
        forall|i: int| 0 <= i < events.len() ==> (#[trigger] spec_radio_press(events[i]) is Some <==> events[i]
            == Press::Pressed),
{
}

/// What a slider does on a mouse input.
#[derive(Debug, Clone, Copy, PartialEq, Eq, Structural)]
pub enum SliderPress {
    /// Nothing.
    Nothing,
    /// Start dragging the handle from the pointer, from the current value.
    StartDrag,
    /// Set the value to the one under the pointer.
    JumpToPointer,
}

/// Handles a mouse input on a slider. `near_handle` is whether the pointer is within reach of the
/// handle, or `None` while the slider's current value is not known yet: a press near the handle
/// starts a drag; any other press sets the value under the pointer; a release does nothing.
pub fn slider_press(press: Press, near_handle: Option<bool>) -> (r: SliderPress)
    ensures
        r == match (press, near_handle) {
            (Press::Released, _) => SliderPress::Nothing,
            (Press::Pressed, Some(true)) => SliderPress::StartDrag,
            _ => SliderPress::JumpToPointer,
        },
{
    match (press, near_handle) {
        (Press::Released, _) => SliderPress::Nothing,
        (Press::Pressed, Some(true)) => SliderPress::StartDrag,
        _ => SliderPress::JumpToPointer,
    }
}

/// How a slider takes a cursor movement.
#[derive(Debug, Clone, Copy, PartialEq, Eq, Structural)]
pub enum SliderMove {
    /// Move the value by the distance from where the drag started.
    Scrub,
    /// Set the value to the one under the pointer.
    JumpToPointer,
}

/// Handles a cursor movement on a slider: once a drag has started the value follows the distance
/// from the drag's start; before, it follows the pointer.
pub fn slider_cursor_move(drag_started: bool) -> (m: SliderMove)
    ensures
        m == (if drag_started { SliderMove::Scrub } else { SliderMove::JumpToPointer }),
{
    if drag_started {
        SliderMove::Scrub
    } else {
        SliderMove::JumpToPointer
    }
}

/// What a click on a collapsible's header does.
#[derive(Debug, Clone, Copy, PartialEq, Eq, Structural)]
pub enum HeaderClick {
    /// Toggle the collapsed state.
    Toggle,
    /// Call the header's own click handler.
    Handler,
}

/// Routes the clicks of a collapsible's header: with a click handler of its own, a click calls it
/// and a double click toggles; without, a click toggles and double clicks are not handled.
pub fn header_click_routing(has_handler: bool) -> (r: (HeaderClick, Option<HeaderClick>))
    ensures
        has_handler ==> r == (HeaderClick::Handler, Some(HeaderClick::Toggle)),
        !has_handler ==> r == (HeaderClick::Toggle, None::<HeaderClick>),
{
    if has_handler {
        (HeaderClick::Handler, Some(HeaderClick::Toggle))
    } else {
        (HeaderClick::Toggle, None)
    }
}

/// Whether a collapsible mounts its content on a change of its collapsed state: the first time it
/// is expanded, and only then.
pub fn should_mount_content(collapsed: bool, already_mounted: bool) -> (b: bool)
    ensures
        b == (!collapsed && !already_mounted),
{
    !collapsed && !already_mounted
}

/// The drag state of a draggable widget: whether the button went down on it, and whether it is
/// being dragged, with its preview open.
#[derive(Debug, Clone, Copy, PartialEq, Eq, Structural)]
pub struct DragState {
    pub pressed: bool,
    pub dragging: bool,
}

/// What a cursor movement does to a draggable widget.
#[derive(Debug, Clone, Copy, PartialEq, Eq, Structural)]
pub struct DragMove {
    /// Move the preview to the cursor.
    pub move_preview: bool,
    /// Open the preview: the drag starts.
    pub open_preview: bool,
}

/// What releasing the button does to a draggable widget.
#[derive(Debug, Clone, Copy, PartialEq, Eq, Structural)]
pub struct DragRelease {
    /// Close the preview.
    pub close_preview: bool,
    /// Look for the widget under the cursor and drop onto it.
    pub drop: bool,
}

/// The state after a cursor movement, and what it does: once the cursor has moved far enough from
/// where the button went down, the preview follows it, and the first such movement starts the drag.
pub open spec fn drag_move_step(s: DragState, beyond_threshold: bool) -> (DragState, DragMove) {
    if s.pressed && beyond_threshold {
        (DragState { dragging: true, ..s }, DragMove { move_preview: true, open_preview: !s.dragging })
    } else {
        (s, DragMove { move_preview: false, open_preview: false })
    }
}

/// The state after the button is released, and what it does: the press ends, the preview closes,
/// and a drag in progress drops.
pub open spec fn drag_release_step(s: DragState) -> (DragState, DragRelease) {
    (
        DragState { pressed: false, dragging: false },
        DragRelease { close_preview: s.dragging, drop: s.dragging },
    )
}

impl DragState {
    pub fn new() -> (s: Self)
        ensures
            !s.pressed,
            !s.dragging,
    {
        Self { pressed: false, dragging: false }
    }

    /// The button went down on the widget.
    pub fn on_press(&mut self)
        ensures
            *final(self) == (DragState { pressed: true, ..*old(self) }),
    {
        self.pressed = true;
    }

    /// The cursor moved; `beyond_threshold` tells whether it is far enough from where the button
    /// went down.
    pub fn on_cursor_move(&mut self, beyond_threshold: bool) -> (m: DragMove)
        ensures
            (*final(self), m) == drag_move_step(*old(self), beyond_threshold),
    {
        if self.pressed && beyond_threshold {
            let open = !self.dragging;
            self.dragging = true;
            DragMove { move_preview: true, open_preview: open }
        } else {
            DragMove { move_preview: false, open_preview: false }
        }
    }

    /// The button was released.
    pub fn on_release(&mut self) -> (r: DragRelease)
        ensures
            (*final(self), r) == drag_release_step(*old(self)),
    {
        let was = self.dragging;
        self.pressed = false;
        self.dragging = false;
        DragRelease { close_preview: was, drop: was }
    }
}

/// A drag opens its preview once: after the first movement beyond the threshold no further
/// movement opens another, and the release that ends the drag closes the preview and drops.
pub proof fn lemma_drag_opens_once(s: DragState, b: bool)
    requires
        s.pressed,
        !s.dragging,
    ensures
        drag_move_step(s, true).1.open_preview,
        !drag_move_step(drag_move_step(s, true).0, b).1.open_preview,
        drag_release_step(drag_move_step(drag_move_step(s, true).0, b).0).1 == (DragRelease {
            close_preview: true,
            drop: true,
        }),
{
}

/// A release without a drag in progress neither drops nor closes anything.
pub proof fn lemma_release_without_drag(s: DragState)
    requires
        !s.dragging,
    ensures
        drag_release_step(s).1 == (DragRelease { close_preview: false, drop: false }),
{
}

} // verus!
