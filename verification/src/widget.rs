//! The renderable unit of the status line: an icon, a text, and a style.
//! A block renders as `<icon-bg><icon-fg><icon> <text-bg><text-fg><text>`;
//! color tokens that are unset render as empty strings.

use vstd::prelude::*;

use crate::color::{Color, ColorView, spec_icon, spec_icon_fg, spec_text, spec_text_fg};

verus! {

/// Mathematical model of a [`Block`].
pub struct BlockView {
    pub icon: Seq<char>,
    pub text: Seq<char>,
    pub color: ColorView,
}

/// One source's renderable result: icon, text and style.
pub struct Block {
    pub icon: String,
    pub text: String,
    pub color: Color,
}

impl View for Block {
    type V = BlockView;

    open spec fn view(&self) -> BlockView {
        BlockView { icon: self.icon@, text: self.text@, color: self.color@ }
    }
}

impl DeepView for Block {
    type V = BlockView;

    open spec fn deep_view(&self) -> BlockView {
        self.view()
    }
}

/// An optional color token's rendering: the token itself, or nothing.
pub open spec fn opt_text(o: Option<Seq<char>>) -> Seq<char> {
    match o {
        Some(s) => s,
        None => Seq::empty(),
    }
}

/// The fixed concatenation rule for one block.
pub open spec fn render_spec(b: BlockView) -> Seq<char> {
    opt_text(b.color.icon_bg) + opt_text(b.color.icon_fg) + b.icon + seq![' ']
        + opt_text(b.color.bg) + opt_text(b.color.fg) + b.text
}

fn append_opt(s: &mut String, o: &Option<String>)
    ensures
        final(s)@ == old(s)@ + opt_text(o.deep_view()),
{
    match o {
        Some(t) => {
            s.append(t.as_str());
        },
        None => {
            proof {
                assert(old(s)@ + opt_text(o.deep_view()) =~= old(s)@);
            }
        },
    }
}

impl Block {
    /// A block with the given icon and text and no color set.
    pub fn new(icon: &str, text: &str) -> (r: Block)
        ensures
            r@.icon == icon@,
            r@.text == text@,
            r@.color.fg is None,
            r@.color.bg is None,
            r@.color.icon_fg is None,
            r@.color.icon_bg is None,
    {
        Block { icon: icon.to_owned(), text: text.to_owned(), color: Color::new() }
    }

    /// Sets the text foreground; an icon foreground that was never set
    /// falls back to it.
    pub fn text_fg(self, fg: &str) -> (r: Block)
        ensures
            r@.icon == self@.icon,
            r@.text == self@.text,
            r@.color == spec_text_fg(self@.color, fg@),
    {
        Block { icon: self.icon, text: self.text, color: self.color.text_fg(fg) }
    }

    /// Sets both text colors; icon colors that were never set fall back
    /// to them channel for channel.
    pub fn text_color(self, fg: &str, bg: &str) -> (r: Block)
        ensures
            r@.icon == self@.icon,
            r@.text == self@.text,
            r@.color == spec_text(self@.color, fg@, bg@),
    {
        Block { icon: self.icon, text: self.text, color: self.color.text(fg, bg) }
    }

    /// Sets both icon colors.
    pub fn icon_color(self, fg: &str, bg: &str) -> (r: Block)
        ensures
            r@.icon == self@.icon,
            r@.text == self@.text,
            r@.color == spec_icon(self@.color, fg@, bg@),
    {
        Block { icon: self.icon, text: self.text, color: self.color.icon(fg, bg) }
    }

    /// Sets the icon foreground.
    pub fn icon_fg(self, fg: &str) -> (r: Block)
        ensures
            r@.icon == self@.icon,
            r@.text == self@.text,
            r@.color == spec_icon_fg(self@.color, fg@),
    {
        Block { icon: self.icon, text: self.text, color: self.color.icon_fg(fg) }
    }

    /// Renders the block by the fixed concatenation rule.
    pub fn render(&self) -> (r: String)
        ensures
            r@ == render_spec(self@),
    {
        let mut r = String::new();
        append_opt(&mut r, &self.color.icon_bg);
        append_opt(&mut r, &self.color.icon_fg);
        r.append(self.icon.as_str());
        r.append(" ");
        append_opt(&mut r, &self.color.bg);
        append_opt(&mut r, &self.color.fg);
        r.append(self.text.as_str());
        proof {
            reveal_strlit(" ");
            assert(" "@ =~= seq![' ']);
            assert(r@ =~= render_spec(self@));
        }
        r
    }
}

/// The uniform style of the plain sources: light foreground for text and
/// icon, no background.
pub open spec fn plain_style() -> ColorView {
    ColorView {
        fg: Some("#EAEAEA"@),
        bg: None,
        icon_fg: Some("#EAEAEA"@),
        icon_bg: None,
    }
}

/// A block in the uniform plain style.
pub fn plain_block(icon: &str, text: &str) -> (r: Block)
    ensures
        r@.icon == icon@,
        r@.text == text@,
        r@.color == plain_style(),
{
    Block::new(icon, text).text_fg("#EAEAEA").icon_fg("#EAEAEA")
}

impl Clone for Block {
    fn clone(&self) -> (r: Block)
        ensures
            r == *self,
    {
        Block { icon: self.icon.clone(), text: self.text.clone(), color: self.color.clone() }
    }
}

} // verus!
