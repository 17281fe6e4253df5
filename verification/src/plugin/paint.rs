//! Styled text, made with `zellij_tile`'s `Text`.

use vstd::prelude::*;
use zellij_tile::ui_components::Text;

verus! {

/// `zellij_tile::ui_components::Text`: text with styles, for Zellij to draw.
#[verifier::external_type_specification]
#[verifier::external_body]
pub struct ExText(zellij_tile::ui_components::Text);

/// The characters of a styled text.
pub uninterp spec fn text_content(t: Text) -> Seq<char>;

/// The styles of a styled text: for each style level, the positions of the
/// characters that have it, in the order in which they were given.
pub uninterp spec fn text_levels(t: Text) -> Seq<Seq<usize>>;

/// Whether a styled text is drawn as selected.
pub uninterp spec fn text_selected(t: Text) -> bool;

/// A styled text, as mathematical values.
#[verifier::ext_equal]
pub struct Painted {
    pub content: Seq<char>,
    pub levels: Seq<Seq<usize>>,
    pub selected: bool,
}

/// The value of a styled text.
pub open spec fn painted(t: Text) -> Painted {
    Painted { content: text_content(t), levels: text_levels(t), selected: text_selected(t) }
}

/// No styles at all.
pub open spec fn no_styles() -> Seq<Seq<usize>> {
    Seq::empty()
}

/// Text without any style.
pub open spec fn plain(content: Seq<char>) -> Painted {
    Painted { content, levels: no_styles(), selected: false }
}

/// Style level of the theme's second accent color.
pub const ACCENT: usize = 1;

/// Style level of the theme's third accent color.
pub const HIGHLIGHT: usize = 2;

/// Style level of dimmed text.
pub const DIM: usize = 4;

/// Style level of the theme's error color.
pub const ERROR: usize = 6;

/// The positions from `from` up to `to`.
pub open spec fn positions(from: usize, to: usize) -> Seq<usize> {
    Seq::new((if from < to { to - from } else { 0 }) as nat, |i: int| (from + i) as usize)
}

/// Styles with the level `level` there, if need be as the last of them.
pub open spec fn with_level(levels: Seq<Seq<usize>>, level: usize) -> Seq<Seq<usize>> {
    levels + Seq::new(
        (if levels.len() <= level { level + 1 - levels.len() } else { 0 }) as nat,
        |i: int| Seq::<usize>::empty(),
    )
}

/// Styles with the positions from `from` up to `to` added to a level.
pub open spec fn level_added(
    levels: Seq<Seq<usize>>,
    level: usize,
    from: usize,
    to: usize,
) -> Seq<Seq<usize>> {
    let room = with_level(levels, level);
    room.update(level as int, room[level as int] + positions(from, to))
}

/// A text in which the characters from `from` up to `to` have one more style.
pub open spec fn styled(p: Painted, level: usize, from: usize, to: usize) -> Painted {
    Painted { levels: level_added(p.levels, level, from, to), ..p }
}

/// Calls `Text::new`: the text without any style.
#[verifier::external_body]
pub(crate) fn new_text(content: &str) -> (t: Text)
    ensures
        text_content(t) == content@,
        text_levels(t) == no_styles(),
        !text_selected(t),
{
    Text::new(content)
}

/// Calls `Text::color_range` with a half-open range of characters: they get the
/// style of that level.
#[verifier::external_body]
pub(crate) fn color_range(t: Text, level: usize, from: usize, to: usize) -> (u: Text)
    requires
        level < 8,
        to <= text_content(t).len(),
    ensures
        text_content(u) == text_content(t),
        text_levels(u) == level_added(text_levels(t), level, from, to),
        text_selected(u) == text_selected(t),
{
    t.color_range(level, from..to)
}

/// Calls `Text::error_color_range` with a half-open range of characters: they get
/// the color of errors.
#[verifier::external_body]
pub(crate) fn error_color_range(t: Text, from: usize, to: usize) -> (u: Text)
    requires
        to <= text_content(t).len(),
    ensures
        text_content(u) == text_content(t),
        text_levels(u) == level_added(text_levels(t), ERROR, from, to),
        text_selected(u) == text_selected(t),
{
    t.error_color_range(from..to)
}

/// Calls `Text::dim_range` with a half-open range of characters: they are dimmed.
#[verifier::external_body]
pub(crate) fn dim_range(t: Text, from: usize, to: usize) -> (u: Text)
    requires
        to <= text_content(t).len(),
    ensures
        text_content(u) == text_content(t),
        text_levels(u) == level_added(text_levels(t), DIM, from, to),
        text_selected(u) == text_selected(t),
{
    t.dim_range(from..to)
}

/// Calls `Text::dim_all`: every character is dimmed.
#[verifier::external_body]
pub(crate) fn dim_all(t: Text) -> (u: Text)
    ensures
        text_content(u) == text_content(t),
        text_levels(u) == level_added(text_levels(t), DIM, 0, text_content(t).len() as usize),
        text_selected(u) == text_selected(t),
{
    t.dim_all()
}

/// Calls `Text::selected`: the text is drawn as selected.
#[verifier::external_body]
pub(crate) fn select(t: Text) -> (u: Text)
    ensures
        text_content(u) == text_content(t),
        text_levels(u) == text_levels(t),
        text_selected(u),
{
    t.selected()
}

} // verus!
