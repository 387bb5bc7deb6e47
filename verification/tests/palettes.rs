use violet::palettes::{add_palette, new_palette_name, sort_order, NewPaletteBase};

#[test]
fn new_palettes_are_numbered_from_one() {
    assert_eq!(new_palette_name(0), "Color 1");
    assert_eq!(new_palette_name(11), "Color 12");
}

#[test]
fn adding_a_palette_copies_the_last_and_selects_it() {
    assert_eq!(add_palette(0), (NewPaletteBase::Rainbow(0), 0));
    assert_eq!(add_palette(3), (NewPaletteBase::CopyOf(2), 3));
}

#[test]
fn sorting_is_stable_by_key() {
    let keys = vec![(5, 10), (2, 300), (5, 3), (2, 300), (0, 0), (5, 10)];
    assert_eq!(sort_order(&keys), vec![4, 1, 3, 2, 0, 5]);
    assert_eq!(sort_order(&vec![]), Vec::<usize>::new());
}
