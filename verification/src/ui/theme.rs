//! Colour themes: eleven built-in schemes, dark and light, selected by
//! name with `/theme`.

use vstd::prelude::*;
use crate::text::{owned, str_eq};

verus! {

/// A terminal colour.
#[derive(Debug, Clone, Copy, PartialEq, Eq, Structural)]
pub enum Color {
    Rgb(u8, u8, u8),
}

/// The colours of a theme.
#[derive(Debug, Clone, Copy, PartialEq, Eq, Structural)]
pub struct Palette {
    pub bg: Color,
    pub fg: Color,
    pub accent: Color,
    pub accent_dim: Color,
    pub sidebar_bg: Color,
    pub sidebar_fg: Color,
    pub input_bg: Color,
    pub input_border: Color,
    pub user_msg_color: Color,
    pub assistant_msg_color: Color,
    pub error_color: Color,
    pub success_color: Color,
    pub warning_color: Color,
    pub tab_active_bg: Color,
    pub tab_inactive_bg: Color,
    pub border_color: Color,
}

/// A colour theme: its name and its colours.
#[derive(Debug, Clone)]
pub struct Theme {
    pub name: String,
    pub bg: Color,
    pub fg: Color,
    pub accent: Color,
    pub accent_dim: Color,
    pub sidebar_bg: Color,
    pub sidebar_fg: Color,
    pub input_bg: Color,
    pub input_border: Color,
    pub user_msg_color: Color,
    pub assistant_msg_color: Color,
    pub error_color: Color,
    pub success_color: Color,
    pub warning_color: Color,
    pub tab_active_bg: Color,
    pub tab_inactive_bg: Color,
    pub border_color: Color,
}

/// The built-in colour schemes.
#[derive(Debug, Clone, Copy, PartialEq, Eq, Structural)]
pub enum ThemeId {
    CyberDark,
    Daylight,
    Dracula,
    Gruvbox,
    SolarizedDark,
    Nord,
    Monokai,
    TokyoNight,
    Catppuccin,
    OneDark,
    Everforest,
}

/// The colours of a built-in scheme.
pub open spec fn palette(id: ThemeId) -> Palette {
    match id {
        ThemeId::CyberDark => Palette {
            bg: Color::Rgb(18, 18, 24),
            fg: Color::Rgb(220, 220, 230),
            accent: Color::Rgb(0, 212, 255),
            accent_dim: Color::Rgb(0, 150, 180),
            sidebar_bg: Color::Rgb(14, 14, 20),
            sidebar_fg: Color::Rgb(180, 180, 200),
            input_bg: Color::Rgb(22, 22, 30),
            input_border: Color::Rgb(60, 60, 80),
            user_msg_color: Color::Rgb(100, 200, 255),
            assistant_msg_color: Color::Rgb(200, 220, 240),
            error_color: Color::Rgb(255, 80, 80),
            success_color: Color::Rgb(80, 255, 120),
            warning_color: Color::Rgb(255, 200, 60),
            tab_active_bg: Color::Rgb(30, 30, 42),
            tab_inactive_bg: Color::Rgb(18, 18, 28),
            border_color: Color::Rgb(50, 50, 70),
        },
        ThemeId::Daylight => Palette {
            bg: Color::Rgb(245, 245, 250),
            fg: Color::Rgb(30, 30, 40),
            accent: Color::Rgb(0, 120, 210),
            accent_dim: Color::Rgb(0, 90, 160),
            sidebar_bg: Color::Rgb(235, 235, 245),
            sidebar_fg: Color::Rgb(60, 60, 80),
            input_bg: Color::Rgb(240, 240, 248),
            input_border: Color::Rgb(180, 180, 200),
            user_msg_color: Color::Rgb(0, 100, 200),
            assistant_msg_color: Color::Rgb(40, 40, 60),
            error_color: Color::Rgb(200, 30, 30),
            success_color: Color::Rgb(20, 160, 60),
            warning_color: Color::Rgb(200, 150, 20),
            tab_active_bg: Color::Rgb(225, 225, 240),
            tab_inactive_bg: Color::Rgb(245, 245, 250),
            border_color: Color::Rgb(200, 200, 215),
        },
        ThemeId::Dracula => Palette {
            bg: Color::Rgb(40, 42, 54),
            fg: Color::Rgb(248, 248, 242),
            accent: Color::Rgb(189, 147, 249),
            accent_dim: Color::Rgb(139, 92, 246),
            sidebar_bg: Color::Rgb(30, 32, 44),
            sidebar_fg: Color::Rgb(208, 208, 202),
            input_bg: Color::Rgb(54, 56, 70),
            input_border: Color::Rgb(76, 78, 100),
            user_msg_color: Color::Rgb(139, 233, 253),
            assistant_msg_color: Color::Rgb(248, 248, 242),
            error_color: Color::Rgb(255, 85, 85),
            success_color: Color::Rgb(80, 250, 123),
            warning_color: Color::Rgb(255, 184, 108),
            tab_active_bg: Color::Rgb(54, 56, 70),
            tab_inactive_bg: Color::Rgb(40, 42, 54),
            border_color: Color::Rgb(76, 78, 100),
        },
        ThemeId::Gruvbox => Palette {
            bg: Color::Rgb(40, 40, 40),
            fg: Color::Rgb(235, 219, 178),
            accent: Color::Rgb(184, 187, 38),
            accent_dim: Color::Rgb(142, 144, 26),
            sidebar_bg: Color::Rgb(30, 30, 30),
            sidebar_fg: Color::Rgb(189, 174, 147),
            input_bg: Color::Rgb(50, 50, 50),
            input_border: Color::Rgb(80, 80, 80),
            user_msg_color: Color::Rgb(131, 165, 152),
            assistant_msg_color: Color::Rgb(235, 219, 178),
            error_color: Color::Rgb(251, 73, 52),
            success_color: Color::Rgb(142, 192, 124),
            warning_color: Color::Rgb(250, 189, 47),
            tab_active_bg: Color::Rgb(60, 60, 60),
            tab_inactive_bg: Color::Rgb(40, 40, 40),
            border_color: Color::Rgb(80, 80, 80),
        },
        ThemeId::SolarizedDark => Palette {
            bg: Color::Rgb(0, 43, 54),
            fg: Color::Rgb(131, 148, 150),
            accent: Color::Rgb(181, 137, 0),
            accent_dim: Color::Rgb(143, 107, 0),
            sidebar_bg: Color::Rgb(7, 54, 66),
            sidebar_fg: Color::Rgb(101, 123, 131),
            input_bg: Color::Rgb(22, 55, 66),
            input_border: Color::Rgb(42, 65, 73),
            user_msg_color: Color::Rgb(38, 139, 210),
            assistant_msg_color: Color::Rgb(131, 148, 150),
            error_color: Color::Rgb(220, 50, 47),
            success_color: Color::Rgb(133, 153, 0),
            warning_color: Color::Rgb(181, 137, 0),
            tab_active_bg: Color::Rgb(22, 55, 66),
            tab_inactive_bg: Color::Rgb(0, 43, 54),
            border_color: Color::Rgb(42, 65, 73),
        },
        ThemeId::Nord => Palette {
            bg: Color::Rgb(46, 52, 64),
            fg: Color::Rgb(216, 222, 233),
            accent: Color::Rgb(136, 192, 208),
            accent_dim: Color::Rgb(94, 129, 172),
            sidebar_bg: Color::Rgb(36, 42, 54),
            sidebar_fg: Color::Rgb(196, 202, 213),
            input_bg: Color::Rgb(56, 62, 74),
            input_border: Color::Rgb(76, 82, 94),
            user_msg_color: Color::Rgb(143, 188, 187),
            assistant_msg_color: Color::Rgb(216, 222, 233),
            error_color: Color::Rgb(191, 97, 106),
            success_color: Color::Rgb(163, 190, 140),
            warning_color: Color::Rgb(235, 203, 139),
            tab_active_bg: Color::Rgb(56, 62, 74),
            tab_inactive_bg: Color::Rgb(46, 52, 64),
            border_color: Color::Rgb(76, 82, 94),
        },
        ThemeId::Monokai => Palette {
            bg: Color::Rgb(39, 40, 34),
            fg: Color::Rgb(248, 248, 242),
            accent: Color::Rgb(166, 226, 46),
            accent_dim: Color::Rgb(118, 168, 26),
            sidebar_bg: Color::Rgb(29, 30, 24),
            sidebar_fg: Color::Rgb(208, 208, 202),
            input_bg: Color::Rgb(49, 50, 44),
            input_border: Color::Rgb(69, 70, 64),
            user_msg_color: Color::Rgb(102, 217, 239),
            assistant_msg_color: Color::Rgb(248, 248, 242),
            error_color: Color::Rgb(249, 38, 114),
            success_color: Color::Rgb(166, 226, 46),
            warning_color: Color::Rgb(230, 219, 116),
            tab_active_bg: Color::Rgb(49, 50, 44),
            tab_inactive_bg: Color::Rgb(39, 40, 34),
            border_color: Color::Rgb(69, 70, 64),
        },
        ThemeId::TokyoNight => Palette {
            bg: Color::Rgb(26, 27, 38),
            fg: Color::Rgb(169, 177, 214),
            accent: Color::Rgb(122, 162, 247),
            accent_dim: Color::Rgb(61, 89, 161),
            sidebar_bg: Color::Rgb(22, 23, 34),
            sidebar_fg: Color::Rgb(139, 147, 184),
            input_bg: Color::Rgb(32, 33, 44),
            input_border: Color::Rgb(52, 53, 64),
            user_msg_color: Color::Rgb(125, 207, 255),
            assistant_msg_color: Color::Rgb(169, 177, 214),
            error_color: Color::Rgb(247, 118, 142),
            success_color: Color::Rgb(158, 206, 106),
            warning_color: Color::Rgb(224, 175, 104),
            tab_active_bg: Color::Rgb(32, 33, 44),
            tab_inactive_bg: Color::Rgb(26, 27, 38),
            border_color: Color::Rgb(52, 53, 64),
        },
        ThemeId::Catppuccin => Palette {
            bg: Color::Rgb(30, 30, 46),
            fg: Color::Rgb(205, 214, 244),
            accent: Color::Rgb(203, 166, 247),
            accent_dim: Color::Rgb(148, 113, 203),
            sidebar_bg: Color::Rgb(24, 24, 37),
            sidebar_fg: Color::Rgb(186, 194, 222),
            input_bg: Color::Rgb(36, 36, 52),
            input_border: Color::Rgb(56, 56, 72),
            user_msg_color: Color::Rgb(137, 220, 235),
            assistant_msg_color: Color::Rgb(205, 214, 244),
            error_color: Color::Rgb(243, 139, 168),
            success_color: Color::Rgb(166, 227, 161),
            warning_color: Color::Rgb(249, 226, 175),
            tab_active_bg: Color::Rgb(36, 36, 52),
            tab_inactive_bg: Color::Rgb(30, 30, 46),
            border_color: Color::Rgb(56, 56, 72),
        },
        ThemeId::OneDark => Palette {
            bg: Color::Rgb(40, 44, 52),
            fg: Color::Rgb(171, 178, 191),
            accent: Color::Rgb(97, 175, 239),
            accent_dim: Color::Rgb(56, 110, 164),
            sidebar_bg: Color::Rgb(33, 37, 43),
            sidebar_fg: Color::Rgb(131, 138, 151),
            input_bg: Color::Rgb(48, 52, 60),
            input_border: Color::Rgb(68, 72, 80),
            user_msg_color: Color::Rgb(86, 182, 194),
            assistant_msg_color: Color::Rgb(171, 178, 191),
            error_color: Color::Rgb(224, 108, 117),
            success_color: Color::Rgb(152, 195, 121),
            warning_color: Color::Rgb(229, 192, 123),
            tab_active_bg: Color::Rgb(48, 52, 60),
            tab_inactive_bg: Color::Rgb(40, 44, 52),
            border_color: Color::Rgb(68, 72, 80),
        },
        ThemeId::Everforest => Palette {
            bg: Color::Rgb(45, 53, 59),
            fg: Color::Rgb(211, 198, 170),
            accent: Color::Rgb(167, 192, 128),
            accent_dim: Color::Rgb(125, 150, 96),
            sidebar_bg: Color::Rgb(35, 43, 49),
            sidebar_fg: Color::Rgb(181, 168, 140),
            input_bg: Color::Rgb(55, 63, 69),
            input_border: Color::Rgb(75, 83, 89),
            user_msg_color: Color::Rgb(127, 187, 179),
            assistant_msg_color: Color::Rgb(211, 198, 170),
            error_color: Color::Rgb(230, 126, 128),
            success_color: Color::Rgb(167, 192, 128),
            warning_color: Color::Rgb(219, 188, 127),
            tab_active_bg: Color::Rgb(55, 63, 69),
            tab_inactive_bg: Color::Rgb(45, 53, 59),
            border_color: Color::Rgb(75, 83, 89),
        },
    }
}

/// The scheme a name selects: "light" is an alias of "daylight", and any
/// other unknown name, "default" among them, selects "cyber-dark".
pub open spec fn theme_id(name: Seq<char>) -> ThemeId {
    if name == "daylight"@ || name == "light"@ {
        ThemeId::Daylight
    } else if name == "dracula"@ {
        ThemeId::Dracula
    } else if name == "gruvbox"@ {
        ThemeId::Gruvbox
    } else if name == "solarized-dark"@ {
        ThemeId::SolarizedDark
    } else if name == "nord"@ {
        ThemeId::Nord
    } else if name == "monokai"@ {
        ThemeId::Monokai
    } else if name == "tokyo-night"@ {
        ThemeId::TokyoNight
    } else if name == "catppuccin"@ {
        ThemeId::Catppuccin
    } else if name == "one-dark"@ {
        ThemeId::OneDark
    } else if name == "everforest"@ {
        ThemeId::Everforest
    } else {
        ThemeId::CyberDark
    }
}

/// The default dark theme, "cyber-dark": blue-black with cyan accents.
fn cyber_dark() -> (p: Palette)
    ensures
        p == palette(ThemeId::CyberDark),
{
    Palette {
        bg: Color::Rgb(18, 18, 24),
        fg: Color::Rgb(220, 220, 230),
        accent: Color::Rgb(0, 212, 255),
        accent_dim: Color::Rgb(0, 150, 180),
        sidebar_bg: Color::Rgb(14, 14, 20),
        sidebar_fg: Color::Rgb(180, 180, 200),
        input_bg: Color::Rgb(22, 22, 30),
        input_border: Color::Rgb(60, 60, 80),
        user_msg_color: Color::Rgb(100, 200, 255),
        assistant_msg_color: Color::Rgb(200, 220, 240),
        error_color: Color::Rgb(255, 80, 80),
        success_color: Color::Rgb(80, 255, 120),
        warning_color: Color::Rgb(255, 200, 60),
        tab_active_bg: Color::Rgb(30, 30, 42),
        tab_inactive_bg: Color::Rgb(18, 18, 28),
        border_color: Color::Rgb(50, 50, 70),
    }
}

/// The light theme, "daylight": pale grey with blue accents.
fn daylight() -> (p: Palette)
    ensures
        p == palette(ThemeId::Daylight),
{
    Palette {
        bg: Color::Rgb(245, 245, 250),
        fg: Color::Rgb(30, 30, 40),
        accent: Color::Rgb(0, 120, 210),
        accent_dim: Color::Rgb(0, 90, 160),
        sidebar_bg: Color::Rgb(235, 235, 245),
        sidebar_fg: Color::Rgb(60, 60, 80),
        input_bg: Color::Rgb(240, 240, 248),
        input_border: Color::Rgb(180, 180, 200),
        user_msg_color: Color::Rgb(0, 100, 200),
        assistant_msg_color: Color::Rgb(40, 40, 60),
        error_color: Color::Rgb(200, 30, 30),
        success_color: Color::Rgb(20, 160, 60),
        warning_color: Color::Rgb(200, 150, 20),
        tab_active_bg: Color::Rgb(225, 225, 240),
        tab_inactive_bg: Color::Rgb(245, 245, 250),
        border_color: Color::Rgb(200, 200, 215),
    }
}

/// The "dracula" theme: dark, with purple accents.
fn dracula() -> (p: Palette)
    ensures
        p == palette(ThemeId::Dracula),
{
    Palette {
        bg: Color::Rgb(40, 42, 54),
        fg: Color::Rgb(248, 248, 242),
        accent: Color::Rgb(189, 147, 249),
        accent_dim: Color::Rgb(139, 92, 246),
        sidebar_bg: Color::Rgb(30, 32, 44),
        sidebar_fg: Color::Rgb(208, 208, 202),
        input_bg: Color::Rgb(54, 56, 70),
        input_border: Color::Rgb(76, 78, 100),
        user_msg_color: Color::Rgb(139, 233, 253),
        assistant_msg_color: Color::Rgb(248, 248, 242),
        error_color: Color::Rgb(255, 85, 85),
        success_color: Color::Rgb(80, 250, 123),
        warning_color: Color::Rgb(255, 184, 108),
        tab_active_bg: Color::Rgb(54, 56, 70),
        tab_inactive_bg: Color::Rgb(40, 42, 54),
        border_color: Color::Rgb(76, 78, 100),
    }
}

/// The "gruvbox" theme: dark and warm.
fn gruvbox() -> (p: Palette)
    ensures
        p == palette(ThemeId::Gruvbox),
{
    Palette {
        bg: Color::Rgb(40, 40, 40),
        fg: Color::Rgb(235, 219, 178),
        accent: Color::Rgb(184, 187, 38),
        accent_dim: Color::Rgb(142, 144, 26),
        sidebar_bg: Color::Rgb(30, 30, 30),
        sidebar_fg: Color::Rgb(189, 174, 147),
        input_bg: Color::Rgb(50, 50, 50),
        input_border: Color::Rgb(80, 80, 80),
        user_msg_color: Color::Rgb(131, 165, 152),
        assistant_msg_color: Color::Rgb(235, 219, 178),
        error_color: Color::Rgb(251, 73, 52),
        success_color: Color::Rgb(142, 192, 124),
        warning_color: Color::Rgb(250, 189, 47),
        tab_active_bg: Color::Rgb(60, 60, 60),
        tab_inactive_bg: Color::Rgb(40, 40, 40),
        border_color: Color::Rgb(80, 80, 80),
    }
}

/// The "solarized-dark" theme.
fn solarized_dark() -> (p: Palette)
    ensures
        p == palette(ThemeId::SolarizedDark),
{
    Palette {
        bg: Color::Rgb(0, 43, 54),
        fg: Color::Rgb(131, 148, 150),
        accent: Color::Rgb(181, 137, 0),
        accent_dim: Color::Rgb(143, 107, 0),
        sidebar_bg: Color::Rgb(7, 54, 66),
        sidebar_fg: Color::Rgb(101, 123, 131),
        input_bg: Color::Rgb(22, 55, 66),
        input_border: Color::Rgb(42, 65, 73),
        user_msg_color: Color::Rgb(38, 139, 210),
        assistant_msg_color: Color::Rgb(131, 148, 150),
        error_color: Color::Rgb(220, 50, 47),
        success_color: Color::Rgb(133, 153, 0),
        warning_color: Color::Rgb(181, 137, 0),
        tab_active_bg: Color::Rgb(22, 55, 66),
        tab_inactive_bg: Color::Rgb(0, 43, 54),
        border_color: Color::Rgb(42, 65, 73),
    }
}

/// The "nord" theme: arctic blues.
fn nord() -> (p: Palette)
    ensures
        p == palette(ThemeId::Nord),
{
    Palette {
        bg: Color::Rgb(46, 52, 64),
        fg: Color::Rgb(216, 222, 233),
        accent: Color::Rgb(136, 192, 208),
        accent_dim: Color::Rgb(94, 129, 172),
        sidebar_bg: Color::Rgb(36, 42, 54),
        sidebar_fg: Color::Rgb(196, 202, 213),
        input_bg: Color::Rgb(56, 62, 74),
        input_border: Color::Rgb(76, 82, 94),
        user_msg_color: Color::Rgb(143, 188, 187),
        assistant_msg_color: Color::Rgb(216, 222, 233),
        error_color: Color::Rgb(191, 97, 106),
        success_color: Color::Rgb(163, 190, 140),
        warning_color: Color::Rgb(235, 203, 139),
        tab_active_bg: Color::Rgb(56, 62, 74),
        tab_inactive_bg: Color::Rgb(46, 52, 64),
        border_color: Color::Rgb(76, 82, 94),
    }
}

/// The "monokai" theme.
fn monokai() -> (p: Palette)
    ensures
        p == palette(ThemeId::Monokai),
{
    Palette {
        bg: Color::Rgb(39, 40, 34),
        fg: Color::Rgb(248, 248, 242),
        accent: Color::Rgb(166, 226, 46),
        accent_dim: Color::Rgb(118, 168, 26),
        sidebar_bg: Color::Rgb(29, 30, 24),
        sidebar_fg: Color::Rgb(208, 208, 202),
        input_bg: Color::Rgb(49, 50, 44),
        input_border: Color::Rgb(69, 70, 64),
        user_msg_color: Color::Rgb(102, 217, 239),
        assistant_msg_color: Color::Rgb(248, 248, 242),
        error_color: Color::Rgb(249, 38, 114),
        success_color: Color::Rgb(166, 226, 46),
        warning_color: Color::Rgb(230, 219, 116),
        tab_active_bg: Color::Rgb(49, 50, 44),
        tab_inactive_bg: Color::Rgb(39, 40, 34),
        border_color: Color::Rgb(69, 70, 64),
    }
}

/// The "tokyo-night" theme.
fn tokyo_night() -> (p: Palette)
    ensures
        p == palette(ThemeId::TokyoNight),
{
    Palette {
        bg: Color::Rgb(26, 27, 38),
        fg: Color::Rgb(169, 177, 214),
        accent: Color::Rgb(122, 162, 247),
        accent_dim: Color::Rgb(61, 89, 161),
        sidebar_bg: Color::Rgb(22, 23, 34),
        sidebar_fg: Color::Rgb(139, 147, 184),
        input_bg: Color::Rgb(32, 33, 44),
        input_border: Color::Rgb(52, 53, 64),
        user_msg_color: Color::Rgb(125, 207, 255),
        assistant_msg_color: Color::Rgb(169, 177, 214),
        error_color: Color::Rgb(247, 118, 142),
        success_color: Color::Rgb(158, 206, 106),
        warning_color: Color::Rgb(224, 175, 104),
        tab_active_bg: Color::Rgb(32, 33, 44),
        tab_inactive_bg: Color::Rgb(26, 27, 38),
        border_color: Color::Rgb(52, 53, 64),
    }
}

/// The "catppuccin" theme (Mocha).
fn catppuccin() -> (p: Palette)
    ensures
        p == palette(ThemeId::Catppuccin),
{
    Palette {
        bg: Color::Rgb(30, 30, 46),
        fg: Color::Rgb(205, 214, 244),
        accent: Color::Rgb(203, 166, 247),
        accent_dim: Color::Rgb(148, 113, 203),
        sidebar_bg: Color::Rgb(24, 24, 37),
        sidebar_fg: Color::Rgb(186, 194, 222),
        input_bg: Color::Rgb(36, 36, 52),
        input_border: Color::Rgb(56, 56, 72),
        user_msg_color: Color::Rgb(137, 220, 235),
        assistant_msg_color: Color::Rgb(205, 214, 244),
        error_color: Color::Rgb(243, 139, 168),
        success_color: Color::Rgb(166, 227, 161),
        warning_color: Color::Rgb(249, 226, 175),
        tab_active_bg: Color::Rgb(36, 36, 52),
        tab_inactive_bg: Color::Rgb(30, 30, 46),
        border_color: Color::Rgb(56, 56, 72),
    }
}

/// The "one-dark" theme.
fn one_dark() -> (p: Palette)
    ensures
        p == palette(ThemeId::OneDark),
{
    Palette {
        bg: Color::Rgb(40, 44, 52),
        fg: Color::Rgb(171, 178, 191),
        accent: Color::Rgb(97, 175, 239),
        accent_dim: Color::Rgb(56, 110, 164),
        sidebar_bg: Color::Rgb(33, 37, 43),
        sidebar_fg: Color::Rgb(131, 138, 151),
        input_bg: Color::Rgb(48, 52, 60),
        input_border: Color::Rgb(68, 72, 80),
        user_msg_color: Color::Rgb(86, 182, 194),
        assistant_msg_color: Color::Rgb(171, 178, 191),
        error_color: Color::Rgb(224, 108, 117),
        success_color: Color::Rgb(152, 195, 121),
        warning_color: Color::Rgb(229, 192, 123),
        tab_active_bg: Color::Rgb(48, 52, 60),
        tab_inactive_bg: Color::Rgb(40, 44, 52),
        border_color: Color::Rgb(68, 72, 80),
    }
}

/// The "everforest" theme: forest greens.
fn everforest() -> (p: Palette)
    ensures
        p == palette(ThemeId::Everforest),
{
    Palette {
        bg: Color::Rgb(45, 53, 59),
        fg: Color::Rgb(211, 198, 170),
        accent: Color::Rgb(167, 192, 128),
        accent_dim: Color::Rgb(125, 150, 96),
        sidebar_bg: Color::Rgb(35, 43, 49),
        sidebar_fg: Color::Rgb(181, 168, 140),
        input_bg: Color::Rgb(55, 63, 69),
        input_border: Color::Rgb(75, 83, 89),
        user_msg_color: Color::Rgb(127, 187, 179),
        assistant_msg_color: Color::Rgb(211, 198, 170),
        error_color: Color::Rgb(230, 126, 128),
        success_color: Color::Rgb(167, 192, 128),
        warning_color: Color::Rgb(219, 188, 127),
        tab_active_bg: Color::Rgb(55, 63, 69),
        tab_inactive_bg: Color::Rgb(45, 53, 59),
        border_color: Color::Rgb(75, 83, 89),
    }
}

/// `t` is named `name` and has the colours of `p`.
pub open spec fn has_palette(t: Theme, p: Palette) -> bool {
    t.bg == p.bg
    && t.fg == p.fg
    && t.accent == p.accent
    && t.accent_dim == p.accent_dim
    && t.sidebar_bg == p.sidebar_bg
    && t.sidebar_fg == p.sidebar_fg
    && t.input_bg == p.input_bg
    && t.input_border == p.input_border
    && t.user_msg_color == p.user_msg_color
    && t.assistant_msg_color == p.assistant_msg_color
    && t.error_color == p.error_color
    && t.success_color == p.success_color
    && t.warning_color == p.warning_color
    && t.tab_active_bg == p.tab_active_bg
    && t.tab_inactive_bg == p.tab_inactive_bg
    && t.border_color == p.border_color
}

/// The theme a name selects, carrying that name.
pub fn get_theme(name: &str) -> (t: Theme)
    ensures
        t.name@ == name@,
        has_palette(t, palette(theme_id(name@))),
{
    let p = if str_eq(name, "daylight") || str_eq(name, "light") {
        daylight()
    } else if str_eq(name, "dracula") {
        dracula()
    } else if str_eq(name, "gruvbox") {
        gruvbox()
    } else if str_eq(name, "solarized-dark") {
        solarized_dark()
    } else if str_eq(name, "nord") {
        nord()
    } else if str_eq(name, "monokai") {
        monokai()
    } else if str_eq(name, "tokyo-night") {
        tokyo_night()
    } else if str_eq(name, "catppuccin") {
        catppuccin()
    } else if str_eq(name, "one-dark") {
        one_dark()
    } else if str_eq(name, "everforest") {
        everforest()
    } else {
        cyber_dark()
    };
    Theme {
        name: owned(name),
        bg: p.bg,
        fg: p.fg,
        accent: p.accent,
        accent_dim: p.accent_dim,
        sidebar_bg: p.sidebar_bg,
        sidebar_fg: p.sidebar_fg,
        input_bg: p.input_bg,
        input_border: p.input_border,
        user_msg_color: p.user_msg_color,
        assistant_msg_color: p.assistant_msg_color,
        error_color: p.error_color,
        success_color: p.success_color,
        warning_color: p.warning_color,
        tab_active_bg: p.tab_active_bg,
        tab_inactive_bg: p.tab_inactive_bg,
        border_color: p.border_color,
    }
}

/// The names `/theme` accepts, aliases included.
pub open spec fn theme_names() -> Seq<Seq<char>> {
    seq!["default"@, "cyber-dark"@, "daylight"@, "light"@, "dracula"@, "gruvbox"@, "solarized-dark"@,
        "nord"@, "monokai"@, "tokyo-night"@, "catppuccin"@, "one-dark"@, "everforest"@]
}

/// The names `/theme` accepts, aliases included.
pub fn all_theme_names() -> (r: Vec<&'static str>)
    ensures
        r@.len() == theme_names().len(),
        forall|i: int| 0 <= i < r@.len() ==> #[trigger] r@[i]@ == theme_names()[i],
{
    let mut r: Vec<&'static str> = Vec::new();
    r.push("default");
    r.push("cyber-dark");
    r.push("daylight");
    r.push("light");
    r.push("dracula");
    r.push("gruvbox");
    r.push("solarized-dark");
    r.push("nord");
    r.push("monokai");
    r.push("tokyo-night");
    r.push("catppuccin");
    r.push("one-dark");
    r.push("everforest");
    r
}

/// The brightness of a colour: the sum of its channels.
pub open spec fn brightness(c: Color) -> int {
    match c {
        Color::Rgb(r, g, b) => r as int + g as int + b as int,
    }
}

/// How far apart two colours are in brightness.
pub open spec fn contrast(a: Color, b: Color) -> int {
    let d = brightness(a) - brightness(b);
    if d < 0 {
        -d
    } else {
        d
    }
}

/// Every built-in scheme keeps its text readable: the text stands apart
/// from the background, the sidebar text from the sidebar, the message
/// colours from the background and the input text from the input box.
/// Dark schemes draw light text on a dark ground; "daylight" draws dark
/// text on a light one.
pub proof fn law_text_readable(id: ThemeId)
    ensures
        palette(id).fg != palette(id).bg,
        contrast(palette(id).fg, palette(id).bg) >= 300,
        contrast(palette(id).sidebar_fg, palette(id).sidebar_bg) >= 200,
        contrast(palette(id).user_msg_color, palette(id).bg) >= 250,
        contrast(palette(id).assistant_msg_color, palette(id).bg) >= 250,
        contrast(palette(id).fg, palette(id).input_bg) >= 250,
        id != ThemeId::Daylight ==> brightness(palette(id).fg) > brightness(palette(id).bg),
        id == ThemeId::Daylight ==> brightness(palette(id).fg) < brightness(palette(id).bg),
{
}

/// The theme a name selects keeps its text readable (`law_text_readable`).
pub proof fn law_selected_theme_readable(t: Theme, name: Seq<char>)
    requires
        has_palette(t, palette(theme_id(name))),
    ensures
        t.fg != t.bg,
        contrast(t.fg, t.bg) >= 300,
        contrast(t.sidebar_fg, t.sidebar_bg) >= 200,
{
    law_text_readable(theme_id(name));
}

/// No two built-in schemes share a background colour.
pub proof fn law_backgrounds_distinct(a: ThemeId, b: ThemeId)
    requires
        palette(a).bg == palette(b).bg,
    ensures
        a == b,
{
}

/// "light" selects the same scheme as "daylight".
pub proof fn law_light_is_daylight()
    ensures
        theme_id("light"@) == theme_id("daylight"@),
        theme_id("daylight"@) == ThemeId::Daylight,
{
    reveal_strlit("light");
    reveal_strlit("daylight");
    assert("light"@.len() != "daylight"@.len());
}

/// A name that is not a scheme's selects "cyber-dark".
pub proof fn law_unknown_name_is_cyber_dark(name: Seq<char>)
    requires
        name != "daylight"@,
        name != "light"@,
        name != "dracula"@,
        name != "gruvbox"@,
        name != "solarized-dark"@,
        name != "nord"@,
        name != "monokai"@,
        name != "tokyo-night"@,
        name != "catppuccin"@,
        name != "one-dark"@,
        name != "everforest"@,
    ensures
        theme_id(name) == ThemeId::CyberDark,
{
}

} // verus!
