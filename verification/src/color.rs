//! Style of one rendered block: four optional color tokens, one pair for the
//! icon and one pair for the text. An icon color that is never set on its own
//! falls back to the text color of the same channel; the fallback is applied
//! by the builder methods, so a finished style is self-contained.

use vstd::prelude::*;

verus! {

/// Mathematical model of a [`Color`]: the four tokens as character sequences.
pub struct ColorView {
    pub fg: Option<Seq<char>>,
    pub bg: Option<Seq<char>>,
    pub icon_fg: Option<Seq<char>>,
    pub icon_bg: Option<Seq<char>>,
}

/// Four optional color tokens; `None` renders as the empty string.
pub struct Color {
    pub fg: Option<String>,
    pub bg: Option<String>,
    pub icon_fg: Option<String>,
    pub icon_bg: Option<String>,
}

impl View for Color {
    type V = ColorView;

    open spec fn view(&self) -> ColorView {
        ColorView {
            fg: self.fg.deep_view(),
            bg: self.bg.deep_view(),
            icon_fg: self.icon_fg.deep_view(),
            icon_bg: self.icon_bg.deep_view(),
        }
    }
}

/// What the builder `text` does to a style: sets both text tokens and fills
/// in any icon token that is still unset with the matching text token.
pub open spec fn spec_text(c: ColorView, fg: Seq<char>, bg: Seq<char>) -> ColorView {
    ColorView {
        fg: Some(fg),
        bg: Some(bg),
        icon_fg: if c.icon_fg is Some { c.icon_fg } else { Some(fg) },
        icon_bg: if c.icon_bg is Some { c.icon_bg } else { Some(bg) },
    }
}

/// What the builder `text_fg` does: sets the text foreground and fills in a
/// still-unset icon foreground with it.
pub open spec fn spec_text_fg(c: ColorView, fg: Seq<char>) -> ColorView {
    ColorView {
        fg: Some(fg),
        bg: c.bg,
        icon_fg: if c.icon_fg is Some { c.icon_fg } else { Some(fg) },
        icon_bg: c.icon_bg,
    }
}

/// What the builder `icon` does: sets both icon tokens.
pub open spec fn spec_icon(c: ColorView, fg: Seq<char>, bg: Seq<char>) -> ColorView {
    ColorView { fg: c.fg, bg: c.bg, icon_fg: Some(fg), icon_bg: Some(bg) }
}

/// What the builder `icon_fg` does: sets the icon foreground only.
pub open spec fn spec_icon_fg(c: ColorView, fg: Seq<char>) -> ColorView {
    ColorView { fg: c.fg, bg: c.bg, icon_fg: Some(fg), icon_bg: c.icon_bg }
}

impl Color {
    /// A style with no token set.
    pub fn new() -> (r: Color)
        ensures
            r@.fg is None,
            r@.bg is None,
            r@.icon_fg is None,
            r@.icon_bg is None,
    {
        Color { fg: None, bg: None, icon_fg: None, icon_bg: None }
    }

    pub fn text(self, fg: &str, bg: &str) -> (r: Color)
        ensures
            r@ == spec_text(self@, fg@, bg@),
    {
        let icon_fg = match self.icon_fg {
            Some(s) => Some(s),
            None => Some(fg.to_owned()),
        };
        let icon_bg = match self.icon_bg {
            Some(s) => Some(s),
            None => Some(bg.to_owned()),
        };
        Color { fg: Some(fg.to_owned()), bg: Some(bg.to_owned()), icon_fg, icon_bg }
    }

    pub fn text_fg(self, fg: &str) -> (r: Color)
        ensures
            r@ == spec_text_fg(self@, fg@),
    {
        let icon_fg = match self.icon_fg {
            Some(s) => Some(s),
            None => Some(fg.to_owned()),
        };
        Color { fg: Some(fg.to_owned()), bg: self.bg, icon_fg, icon_bg: self.icon_bg }
    }

    pub fn icon(self, fg: &str, bg: &str) -> (r: Color)
        ensures
            r@ == spec_icon(self@, fg@, bg@),
    {
        Color { fg: self.fg, bg: self.bg, icon_fg: Some(fg.to_owned()), icon_bg: Some(bg.to_owned()) }
    }

    pub fn icon_fg(self, fg: &str) -> (r: Color)
        ensures
            r@ == spec_icon_fg(self@, fg@),
    {
        Color { fg: self.fg, bg: self.bg, icon_fg: Some(fg.to_owned()), icon_bg: self.icon_bg }
    }
}

impl Clone for Color {
    fn clone(&self) -> (r: Color)
        ensures
            r == *self,
    {
        Color {
            fg: match &self.fg { Some(s) => Some(s.clone()), None => None },
            bg: match &self.bg { Some(s) => Some(s.clone()), None => None },
            icon_fg: match &self.icon_fg { Some(s) => Some(s.clone()), None => None },
            icon_bg: match &self.icon_bg { Some(s) => Some(s.clone()), None => None },
        }
    }
}

/// Fallback law: setting a text color on a style whose icon colors were never
/// set makes the icon colors equal to the text colors, so the rendered icon
/// color always equals the corresponding text color.
pub proof fn lemma_icon_color_fallback(c: ColorView, fg: Seq<char>, bg: Seq<char>)
    requires
        c.icon_fg is None,
        c.icon_bg is None,
    ensures
        spec_text(c, fg, bg).icon_fg == spec_text(c, fg, bg).fg,
        spec_text(c, fg, bg).icon_bg == spec_text(c, fg, bg).bg,
        spec_text_fg(c, fg).icon_fg == spec_text_fg(c, fg).fg,
{
}

} // verus!
