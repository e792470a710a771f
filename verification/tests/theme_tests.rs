use rusty_panther::constants::chars;
use rusty_panther::theme;
use rusty_panther::theme::default_theme;
use rusty_panther::theme::Theme;

#[test]
fn theme_builder_defaults_to_white_on_black() {
    let theme = Theme::builder();
    assert_eq!(theme.fg, (255, 255, 255));
    assert_eq!(theme.bg, (0, 0, 0));
}

#[test]
fn theme_builder_methods_set_the_colors() {
    let theme = Theme::builder().fg_rgb((1, 2, 3)).bg_rgb((4, 5, 6)).build();
    assert_eq!(theme.fg, (1, 2, 3));
    assert_eq!(theme.bg, (4, 5, 6));
}

#[test]
fn builder_chain_defaults_are_white_on_black() {
    let a = Theme::new();
    let b = default_theme();
    assert_eq!(a.fg, (255, 255, 255));
    assert_eq!(a.bg, (0, 0, 0));
    assert_eq!(b.fg, a.fg);
    assert_eq!(b.bg, a.bg);
}

#[test]
fn standalone_defaults_are_black_on_white() {
    let a = Theme::default();
    let b = theme::default();
    assert_eq!(a.fg, (0, 0, 0));
    assert_eq!(a.bg, (255, 255, 255));
    assert_eq!(b.fg, a.fg);
    assert_eq!(b.bg, a.bg);
}

#[test]
fn border_characters_are_the_box_drawing_set() {
    assert_eq!(chars::TOP_LEFT, "\u{250c}");
    assert_eq!(chars::TOP_RIGHT, "\u{2510}");
    assert_eq!(chars::BOTTOM_LEFT, "\u{2514}");
    assert_eq!(chars::BOTTOM_RIGHT, "\u{2518}");
    assert_eq!(chars::VERTICAL, "\u{2502}");
    assert_eq!(chars::HORIZONTAL, "\u{2500}");
    assert_eq!(chars::EMPTY, " ");
}
