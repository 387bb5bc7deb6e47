use violet::basic::{
    bold, header, label, subtitle, title, FontSize, Rectangle, Text, TextStyle, Weight, Wrap,
};
use violet::controls::{
    Button, Checkbox, Chevron, Collapsible, CollapsibleInner, CollapsibleStyle, InteractiveWidget,
    Radio, Selectable, SelectionOption,
};
use violet::style::{ButtonStyle, ColorRef, SpacingRef, WidgetSizeProps};
use violet::widget::EmptyWidget;

#[test]
fn plain_texts() {
    let t = Text::new("hi".to_string());
    assert_eq!(t.text.len(), 1);
    assert_eq!(t.text[0].text, "hi");
    assert_eq!(t.text[0].weight, Weight::Normal);
    assert!(!t.text[0].italic);
    assert_eq!(t.style, TextStyle::default());
    assert_eq!(t.style.font_size, FontSize::Small);
    assert_eq!(t.size.margin, Some(SpacingRef::Small));
    assert!(Text::italic("x".to_string()).text[0].italic);
    assert_eq!(Text::extra_bold("x".to_string()).text[0].weight, Weight::ExtraBold);
    assert_eq!(Text::light("x".to_string()).text[0].weight, Weight::Light);
    assert_eq!(Text::extra_light("x".to_string()).text[0].weight, Weight::ExtraLight);
    let t = t.with_wrap(Wrap::Word).with_font_size(FontSize::Px(20)).with_color(ColorRef::ElementAccent);
    assert_eq!(t.style.wrap, Wrap::Word);
    assert_eq!(t.style.font_size, FontSize::Px(20));
    assert_eq!(t.style.color, ColorRef::ElementAccent);
}

#[test]
fn headings() {
    let t = title("Title".to_string());
    assert_eq!(t.text[0].weight, Weight::Bold);
    assert_eq!(t.style.font_size, FontSize::Large);
    let s = subtitle("Sub".to_string());
    assert_eq!(s.text[0].weight, Weight::Medium);
    assert_eq!(s.style.color, ColorRef::ElementSecondary);
    assert_eq!(s.style.font_size, FontSize::Medium);
    let b = bold("B".to_string());
    assert_eq!(b.text[0].weight, Weight::Bold);
    assert_eq!(b.style.color, ColorRef::ElementSecondary);
    assert_eq!(label("L".to_string()).size.margin, Some(SpacingRef::Small));
    let h = header("H".to_string());
    assert_eq!(h.items.text[0].text, "H");
    assert_eq!(h.size.padding, Some(SpacingRef::Small));
    assert_eq!(Rectangle::new(ColorRef::SurfaceSecondary).size, WidgetSizeProps::default());
}

#[test]
fn interactive_widget_handlers() {
    let w: InteractiveWidget<EmptyWidget, u8, u8, u8> = InteractiveWidget::new(EmptyWidget);
    assert_eq!(w.click_handlers(), (false, false));
    let w = w.on_click(1).on_double_click_opt(Some(2));
    assert_eq!(w.click_handlers(), (true, true));
    let w = w.on_double_click_opt(None).on_pointer_press(3).with_tooltip(4);
    assert_eq!(w.click_handlers(), (false, true));
    assert_eq!((w.on_press, w.tooltip), (Some(3), Some(4)));
    assert_eq!(w.on_double_click(5).double_click, Some(5));
}

#[test]
fn buttons_checkboxes_and_radios() {
    let b: Button<EmptyWidget, u8, u8> = Button::new(EmptyWidget);
    assert_eq!(b.style, ButtonStyle::default());
    assert!(b.on_click.is_none());
    let b = b.danger().is_pressed(true).on_click(7);
    assert_eq!(b.style, ButtonStyle::danger());
    assert!(b.is_pressed);
    assert_eq!(b.on_click, Some(7));
    assert_eq!(b.success().style, ButtonStyle::success());
    let c = Checkbox::new(EmptyWidget, 0u8);
    assert_eq!(c.size.min_size.map(|s| (s.width, s.height)), Some((28, 28)));
    assert_eq!(c.size.padding, Some(SpacingRef::Medium));
    let r: Radio<u8, u8> = Radio::new(1);
    assert_eq!(r.style, ButtonStyle::radio());
    let s: Selectable<EmptyWidget, u8, u8> = Selectable::new(EmptyWidget, 1);
    assert_eq!(s.style, ButtonStyle::selectable_entry());
}

#[test]
fn collapsibles() {
    let c: Collapsible<EmptyWidget, u8, fn() -> u8, u8> = Collapsible::new(EmptyWidget, 3);
    assert!(c.can_collapse && !c.collapsed && !c.indent && c.on_click.is_none());
    assert!(matches!(c.inner, CollapsibleInner::Ready(3)));
    assert_eq!(c.style.button, ButtonStyle::hidden());
    let c = c.collapsed(true).indent(true).can_collapse(false).on_click(9);
    assert!(c.collapsed && c.indent && !c.can_collapse);
    let d: Collapsible<EmptyWidget, u8, u8, u8> = Collapsible::deferred(EmptyWidget, 4);
    assert!(matches!(d.inner, CollapsibleInner::Deferred(4)));
    let style = CollapsibleStyle::default()
        .with_background(ColorRef::SurfaceTertiary)
        .with_chevron(Chevron::Text(">".to_string()));
    assert_eq!(style.content, ColorRef::SurfaceTertiary);
    assert!(matches!(style.chevron, Chevron::Text(_)));
}

#[test]
fn labeled_controls() {
    let b: Button<Text, u8, u8> = Button::label("Ok".to_string());
    assert_eq!(b.label.text[0].text, "Ok");
    assert_eq!(b.style, ButtonStyle::default());
    let c = Checkbox::label("Check".to_string(), 1u8);
    assert_eq!(c.label.text[0].text, "Check");
    let s: Selectable<Text, u8, u8> = Selectable::label("Pick".to_string(), 2);
    assert_eq!(s.label.text[0].text, "Pick");
    let l: Collapsible<Text, u8, u8, u8> = Collapsible::label("Head".to_string(), 5);
    assert_eq!(l.label.text[0].text, "Head");
    assert!(matches!(l.inner, CollapsibleInner::Ready(5)));
}

#[test]
fn indexed_radio_selects_its_index() {
    let radio: Radio<SelectionOption<&str, usize>, ()> = Radio::new_indexed("choice", 2);
    assert_eq!(radio.state.value, 2);
    assert_eq!(radio.state.state, "choice");
    assert!(radio.state.read(2));
    assert!(!radio.state.read(1));
    assert_eq!(radio.state.write(false), 2);
    assert_eq!(radio.state.write(true), 2);
    assert!(radio.tooltip.is_none());
    assert_eq!(radio.style, ButtonStyle::radio());
}

#[test]
fn valued_selectable_selects_its_value() {
    let entry: Selectable<EmptyWidget, SelectionOption<u8, char>, ()> =
        Selectable::new_value(EmptyWidget, 0u8, 'b');
    assert!(entry.state.read_value(&'b'));
    assert!(!entry.state.read_value(&'a'));
    assert_eq!(entry.state.write(true), 'b');
    assert_eq!(entry.style, ButtonStyle::selectable_entry());
    let indexed: Selectable<EmptyWidget, SelectionOption<u8, usize>, ()> =
        Selectable::new_indexed(EmptyWidget, 1u8, 4);
    assert!(indexed.state.read(4));
    let radio: Radio<SelectionOption<u8, i64>, ()> = Radio::new_value(7u8, -3i64);
    assert!(radio.state.read_value(&-3));
}
