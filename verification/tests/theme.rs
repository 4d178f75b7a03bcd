use omnomon::theme::{Theme, ThemeColor};

#[test]
fn known_themes_ignore_ascii_case() {
    assert_eq!(Theme::by_name("gruvbox").name, "gruvbox");
    assert_eq!(Theme::by_name("GruvBox").name, "gruvbox");
    assert_eq!(Theme::by_name("DRACULA").name, "dracula");
    assert_eq!(Theme::by_name("nord").name, "nord");
    assert_eq!(Theme::by_name("Catppuccin").name, "catppuccin");
    assert_eq!(Theme::by_name("solarized").name, "solarized");
}

#[test]
fn unknown_theme_is_default() {
    let t = Theme::by_name("neon");
    assert_eq!(t.name, "default");
    assert_eq!(t.border, ThemeColor::DarkGray);
    assert_eq!(t.header, ThemeColor::Cyan);
    assert_eq!(t.secondary, ThemeColor::Magenta);
    assert_eq!(t.text, ThemeColor::Reset);
    assert_eq!(t.selected_bg, ThemeColor::Rgb(40, 40, 40));
    assert_eq!(t.selected_fg, ThemeColor::White);
    assert_eq!(Theme::default().name, "default");
}

#[test]
fn palette_colours() {
    let g = Theme::by_name("gruvbox");
    assert_eq!(g.border, ThemeColor::Rgb(146, 131, 116));
    assert_eq!(g.header, ThemeColor::Rgb(250, 189, 47));
    let d = Theme::by_name("dracula");
    assert_eq!(d.primary, ThemeColor::Rgb(139, 233, 253));
    let s = Theme::by_name("solarized");
    assert_eq!(s.selected_bg, ThemeColor::Rgb(7, 54, 66));
}
