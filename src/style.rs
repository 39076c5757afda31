use vstd::prelude::*;

verus! {

/// A text color of the terminal view.
#[derive(Debug, Copy, Clone, PartialEq, Eq, Structural)]
pub enum TextColor {
    Plain,
    Red,
}

/// A foreground and a background color.
#[derive(Debug, Copy, Clone, PartialEq, Eq, Structural)]
pub struct TextStyle {
    pub fg: TextColor,
    pub bg: TextColor,
}

/// A terminal escape sequence.
#[derive(Debug, Copy, Clone, PartialEq, Eq, Structural)]
pub enum Ansi {
    Reset,
    Bold,
    Underline,
    Black,
    Red,
    Green,
    Yellow,
    Blue,
    Magenta,
    Cyan,
    White,
}

/// The escape that starts a select-graphic-rendition sequence.
pub open spec fn csi() -> Seq<char> {
    seq!['\u{1b}', '[']
}

/// The numeric parameter of escape `a`.
pub open spec fn ansi_parameter(a: Ansi) -> Seq<char> {
    match a {
        Ansi::Reset => seq!['0'],
        Ansi::Bold => seq!['1'],
        Ansi::Underline => seq!['4'],
        Ansi::Black => seq!['3', '0'],
        Ansi::Red => seq!['3', '1'],
        Ansi::Green => seq!['3', '2'],
        Ansi::Yellow => seq!['3', '3'],
        Ansi::Blue => seq!['3', '4'],
        Ansi::Magenta => seq!['3', '5'],
        Ansi::Cyan => seq!['3', '6'],
        Ansi::White => seq!['3', '7'],
    }
}

impl Ansi {
    /// The escape sequence of this effect.
    pub fn code(&self) -> (r: &'static str)
        ensures
            r@ == csi() + ansi_parameter(*self) + seq!['m'],
    {
        match self {
            Self::Reset => {
                proof { reveal_strlit("\x1b[0m"); }
                "\x1b[0m"
            },
            Self::Bold => {
                proof { reveal_strlit("\x1b[1m"); }
                "\x1b[1m"
            },
            Self::Underline => {
                proof { reveal_strlit("\x1b[4m"); }
                "\x1b[4m"
            },
            Self::Black => {
                proof { reveal_strlit("\x1b[30m"); }
                "\x1b[30m"
            },
            Self::Red => {
                proof { reveal_strlit("\x1b[31m"); }
                "\x1b[31m"
            },
            Self::Green => {
                proof { reveal_strlit("\x1b[32m"); }
                "\x1b[32m"
            },
            Self::Yellow => {
                proof { reveal_strlit("\x1b[33m"); }
                "\x1b[33m"
            },
            Self::Blue => {
                proof { reveal_strlit("\x1b[34m"); }
                "\x1b[34m"
            },
            Self::Magenta => {
                proof { reveal_strlit("\x1b[35m"); }
                "\x1b[35m"
            },
            Self::Cyan => {
                proof { reveal_strlit("\x1b[36m"); }
                "\x1b[36m"
            },
            Self::White => {
                proof { reveal_strlit("\x1b[37m"); }
                "\x1b[37m"
            },
        }
    }
}

/// The ANSI parameter that selects color `c` as foreground ("" for the default).
pub open spec fn fg_code(c: TextColor) -> Seq<char> {
    match c {
        TextColor::Plain => Seq::empty(),
        TextColor::Red => seq!['3', '1'],
    }
}

/// The ANSI parameter that selects color `c` as background ("" for the default).
pub open spec fn bg_code(c: TextColor) -> Seq<char> {
    match c {
        TextColor::Plain => Seq::empty(),
        TextColor::Red => seq!['4', '1'],
    }
}

impl TextColor {
    /// The ANSI parameter that selects this color as foreground.
    pub fn ansi_fg_id(&self) -> (r: String)
        ensures
            r@ == fg_code(*self),
    {
        match self {
            Self::Plain => String::new(),
            Self::Red => {
                proof { reveal_strlit("31"); }
                String::from_str("31")
            },
        }
    }

    /// The ANSI parameter that selects this color as background.
    pub fn ansi_bg_id(&self) -> (r: String)
        ensures
            r@ == bg_code(*self),
    {
        match self {
            Self::Plain => String::new(),
            Self::Red => {
                proof { reveal_strlit("41"); }
                String::from_str("41")
            },
        }
    }
}

impl TextStyle {
    /// The default style: default foreground and background.
    pub open spec fn default_style() -> TextStyle {
        TextStyle { fg: TextColor::Plain, bg: TextColor::Plain }
    }

    /// The style with foreground `fg` and the default background.
    pub fn fg_only(fg: TextColor) -> (r: Self)
        ensures
            r.fg == fg,
            r.bg == TextColor::Plain,
    {
        Self { fg, bg: TextColor::Plain }
    }

    /// The style with background `bg` and the default foreground.
    pub fn bg_only(bg: TextColor) -> (r: Self)
        ensures
            r.fg == TextColor::Plain,
            r.bg == bg,
    {
        Self { fg: TextColor::Plain, bg }
    }
}

/// The escape sequences that switch the terminal to style `s`: first the
/// background, then the foreground.
pub open spec fn style_escape(s: TextStyle) -> Seq<char> {
    csi() + bg_code(s.bg) + seq!['m'] + csi() + fg_code(s.fg) + seq!['m']
}

impl TextStyle {
    /// The escape sequences that switch the terminal to this style: first
    /// the background, then the foreground.
    pub fn escape(&self) -> (r: String)
        ensures
            r@ == style_escape(*self),
    {
        proof {
            reveal_strlit("\x1b[");
            reveal_strlit("m");
        }
        let mut r = String::from_str("\x1b[");
        let bg = self.bg.ansi_bg_id();
        r.append(bg.as_str());
        r.append("m");
        r.append("\x1b[");
        let fg = self.fg.ansi_fg_id();
        r.append(fg.as_str());
        r.append("m");
        r
    }
}

impl Default for TextStyle {
    fn default() -> (r: Self)
        ensures
            r == TextStyle::default_style(),
    {
        Self { fg: TextColor::Plain, bg: TextColor::Plain }
    }
}

} // verus!
