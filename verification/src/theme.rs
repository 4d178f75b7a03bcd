use vstd::prelude::*;

use crate::text::{ascii_lower, ascii_lower_is};

verus! {

/// A terminal colour used by a theme: a named terminal colour or a 24-bit RGB value.
#[derive(Copy, Clone, PartialEq, Eq, Debug, Structural)]
pub enum ThemeColor {
    Reset,
    DarkGray,
    Cyan,
    Magenta,
    White,
    Rgb(u8, u8, u8),
}

/// The colours of the interface.
#[derive(Copy, Clone, Debug)]
pub struct Theme {
    pub name: &'static str,
    pub border: ThemeColor,
    pub header: ThemeColor,
    pub primary: ThemeColor,
    pub secondary: ThemeColor,
    pub text: ThemeColor,
    pub dim: ThemeColor,
    pub selected_bg: ThemeColor,
    pub selected_fg: ThemeColor,
}

/// The colours of a theme, in field order: border, header, primary,
/// secondary, text, dim, selected background, selected foreground.
pub open spec fn theme_colors(t: Theme) -> Seq<ThemeColor> {
    seq![t.border, t.header, t.primary, t.secondary, t.text, t.dim, t.selected_bg, t.selected_fg]
}

/// The name of the theme selected by a configured name (compared without
/// regard to ASCII case); unknown names select `default`.
pub open spec fn theme_key(name: Seq<char>) -> Seq<char> {
    let l = ascii_lower(name);
    if l == "gruvbox"@ || l == "dracula"@ || l == "nord"@ || l == "catppuccin"@ || l
        == "solarized"@ {
        l
    } else {
        "default"@
    }
}

/// The palette of each built-in theme.
pub open spec fn palette(key: Seq<char>) -> Seq<ThemeColor> {
    if key == "gruvbox"@ {
        seq![
            ThemeColor::Rgb(146, 131, 116),
            ThemeColor::Rgb(250, 189, 47),
            ThemeColor::Rgb(131, 165, 152),
            ThemeColor::Rgb(211, 134, 155),
            ThemeColor::Rgb(235, 219, 178),
            ThemeColor::Rgb(124, 111, 100),
            ThemeColor::Rgb(80, 73, 69),
            ThemeColor::Rgb(251, 241, 199),
        ]
    } else if key == "dracula"@ {
        seq![
            ThemeColor::Rgb(98, 114, 164),
            ThemeColor::Rgb(189, 147, 249),
            ThemeColor::Rgb(139, 233, 253),
            ThemeColor::Rgb(255, 121, 198),
            ThemeColor::Rgb(248, 248, 242),
            ThemeColor::Rgb(98, 114, 164),
            ThemeColor::Rgb(68, 71, 90),
            ThemeColor::Rgb(248, 248, 242),
        ]
    } else if key == "nord"@ {
        seq![
            ThemeColor::Rgb(76, 86, 106),
            ThemeColor::Rgb(136, 192, 208),
            ThemeColor::Rgb(143, 188, 187),
            ThemeColor::Rgb(180, 142, 173),
            ThemeColor::Rgb(216, 222, 233),
            ThemeColor::Rgb(76, 86, 106),
            ThemeColor::Rgb(67, 76, 94),
            ThemeColor::Rgb(236, 239, 244),
        ]
    } else if key == "catppuccin"@ {
        seq![
            ThemeColor::Rgb(108, 112, 134),
            ThemeColor::Rgb(203, 166, 247),
            ThemeColor::Rgb(137, 180, 250),
            ThemeColor::Rgb(245, 194, 231),
            ThemeColor::Rgb(205, 214, 244),
            ThemeColor::Rgb(108, 112, 134),
            ThemeColor::Rgb(49, 50, 68),
            ThemeColor::Rgb(245, 224, 220),
        ]
    } else if key == "solarized"@ {
        seq![
            ThemeColor::Rgb(88, 110, 117),
            ThemeColor::Rgb(38, 139, 210),
            ThemeColor::Rgb(42, 161, 152),
            ThemeColor::Rgb(211, 54, 130),
            ThemeColor::Rgb(147, 161, 161),
            ThemeColor::Rgb(101, 123, 131),
            ThemeColor::Rgb(7, 54, 66),
            ThemeColor::Rgb(238, 232, 213),
        ]
    } else {
        seq![
            ThemeColor::DarkGray,
            ThemeColor::Cyan,
            ThemeColor::Cyan,
            ThemeColor::Magenta,
            ThemeColor::Reset,
            ThemeColor::DarkGray,
            ThemeColor::Rgb(40, 40, 40),
            ThemeColor::White,
        ]
    }
}

fn theme(
    name: &'static str,
    border: ThemeColor,
    header: ThemeColor,
    primary: ThemeColor,
    secondary: ThemeColor,
    text: ThemeColor,
    dim: ThemeColor,
    selected_bg: ThemeColor,
    selected_fg: ThemeColor,
) -> (t: Theme)
    ensures
        t.name == name,
        theme_colors(t) == seq![border, header, primary, secondary, text, dim, selected_bg, selected_fg],
{
    let t = Theme { name, border, header, primary, secondary, text, dim, selected_bg, selected_fg };
    assert(theme_colors(t) =~= seq![border, header, primary, secondary, text, dim, selected_bg, selected_fg]);
    t
}

impl Theme {
    /// The built-in theme with the given name (ASCII case ignored); unknown
    /// names give the default theme.
    pub fn by_name(name: &str) -> (t: Theme)
        ensures
            t.name@ == theme_key(name@),
            theme_colors(t) == palette(theme_key(name@)),
    {
        proof {
            reveal_strlit("gruvbox");
            reveal_strlit("dracula");
            reveal_strlit("nord");
            reveal_strlit("catppuccin");
            reveal_strlit("solarized");
            reveal_strlit("default");
        }
        if ascii_lower_is(name, "gruvbox") {
            theme(
                "gruvbox",
                ThemeColor::Rgb(146, 131, 116),
                ThemeColor::Rgb(250, 189, 47),
                ThemeColor::Rgb(131, 165, 152),
                ThemeColor::Rgb(211, 134, 155),
                ThemeColor::Rgb(235, 219, 178),
                ThemeColor::Rgb(124, 111, 100),
                ThemeColor::Rgb(80, 73, 69),
                ThemeColor::Rgb(251, 241, 199),
            )
        } else if ascii_lower_is(name, "dracula") {
            theme(
                "dracula",
                ThemeColor::Rgb(98, 114, 164),
                ThemeColor::Rgb(189, 147, 249),
                ThemeColor::Rgb(139, 233, 253),
                ThemeColor::Rgb(255, 121, 198),
                ThemeColor::Rgb(248, 248, 242),
                ThemeColor::Rgb(98, 114, 164),
                ThemeColor::Rgb(68, 71, 90),
                ThemeColor::Rgb(248, 248, 242),
            )
        } else if ascii_lower_is(name, "nord") {
            theme(
                "nord",
                ThemeColor::Rgb(76, 86, 106),
                ThemeColor::Rgb(136, 192, 208),
                ThemeColor::Rgb(143, 188, 187),
                ThemeColor::Rgb(180, 142, 173),
                ThemeColor::Rgb(216, 222, 233),
                ThemeColor::Rgb(76, 86, 106),
                ThemeColor::Rgb(67, 76, 94),
                ThemeColor::Rgb(236, 239, 244),
            )
        } else if ascii_lower_is(name, "catppuccin") {
            theme(
                "catppuccin",
                ThemeColor::Rgb(108, 112, 134),
                ThemeColor::Rgb(203, 166, 247),
                ThemeColor::Rgb(137, 180, 250),
                ThemeColor::Rgb(245, 194, 231),
                ThemeColor::Rgb(205, 214, 244),
                ThemeColor::Rgb(108, 112, 134),
                ThemeColor::Rgb(49, 50, 68),
                ThemeColor::Rgb(245, 224, 220),
            )
        } else if ascii_lower_is(name, "solarized") {
            theme(
                "solarized",
                ThemeColor::Rgb(88, 110, 117),
                ThemeColor::Rgb(38, 139, 210),
                ThemeColor::Rgb(42, 161, 152),
                ThemeColor::Rgb(211, 54, 130),
                ThemeColor::Rgb(147, 161, 161),
                ThemeColor::Rgb(101, 123, 131),
                ThemeColor::Rgb(7, 54, 66),
                ThemeColor::Rgb(238, 232, 213),
            )
        } else {
            assert("default"@[0] != "gruvbox"@[0]);
            assert("default"@[1] != "dracula"@[1]);
            assert("default"@ != "gruvbox"@);
            assert("default"@ != "dracula"@);
            assert("default"@ != "nord"@);
            assert("default"@ != "catppuccin"@);
            assert("default"@ != "solarized"@);
            assert(theme_key(name@) == "default"@);
            theme(
                "default",
                ThemeColor::DarkGray,
                ThemeColor::Cyan,
                ThemeColor::Cyan,
                ThemeColor::Magenta,
                ThemeColor::Reset,
                ThemeColor::DarkGray,
                ThemeColor::Rgb(40, 40, 40),
                ThemeColor::White,
            )
        }
    }
}

impl Default for Theme {
    fn default() -> (t: Theme)
        ensures
            t.name@ == "default"@,
            theme_colors(t) == palette("default"@),
    {
        proof {
            reveal_strlit("default");
            reveal_strlit("gruvbox");
            reveal_strlit("dracula");
            reveal_strlit("nord");
            reveal_strlit("catppuccin");
            reveal_strlit("solarized");
            assert(ascii_lower("default"@) =~= "default"@);
        }
        Theme::by_name("default")
    }
}

} // verus!
