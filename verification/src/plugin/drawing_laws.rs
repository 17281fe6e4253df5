//! What holds of the plugin's drawings.

use crate::plugin::paint::{
    level_added, painted, plain, positions, styled, text_content, text_levels, text_selected,
    with_level, Painted,
};
use crate::plugin::panes::VisibleView;
use crate::plugin::row::{last_component, row_lead, row_view, short_path, without_slashes};
use crate::plugin::state::{
    all_styled, drawing_views, render_view, Drawing, DrawingView, StateView,
};
use vstd::prelude::*;
use zellij_tile::ui_components::Text;

verus! {

/// Whether the character at a position has the style of a level.
pub open spec fn has_style(p: Painted, level: int, at: usize) -> bool {
    0 <= level < p.levels.len() && p.levels[level].contains(at)
}

/// A style that is given to a range of characters is theirs, and all other styles
/// stay as they were.
pub proof fn law_style_of_a_range(
    p: Painted,
    level: usize,
    from: usize,
    to: usize,
    other: int,
    at: usize,
)
    ensures
        has_style(styled(p, level, from, to), other, at) <==> has_style(p, other, at) || (other
            == level && from <= at < to),
        styled(p, level, from, to).content == p.content,
        styled(p, level, from, to).selected == p.selected,
{
    let room = with_level(p.levels, level);
    let added = level_added(p.levels, level, from, to);
    let range = positions(from, to);
    assert(room.len() > level);
    assert(added.len() == room.len());
    if from <= at < to {
        assert(range[at - from] == at);
    }
    if range.contains(at) {
        let k = range.index_of(at);
        assert(range[k] == (from + k) as usize);
        assert(from <= at < to);
    }
    if 0 <= other < room.len() {
        let before = room[other];
        assert(before.contains(at) <==> has_style(p, other, at)) by {
            if other < p.levels.len() {
                assert(before == p.levels[other]);
            } else {
                assert(before =~= Seq::<usize>::empty());
            }
        }
        if other == level {
            let after = added[other];
            assert(after == before + range);
            if before.contains(at) {
                let k = before.index_of(at);
                assert(after[k] == at);
            }
            if range.contains(at) {
                let k = range.index_of(at);
                assert(after[before.len() + k] == at);
            }
            if after.contains(at) {
                let k = after.index_of(at);
                if k < before.len() {
                    assert(before[k] == at);
                } else {
                    assert(range[k - before.len()] == at);
                }
            }
        } else {
            assert(added[other] == before);
        }
    }
}

/// A text without styles has none anywhere, is not selected and keeps its
/// characters.
pub proof fn law_plain_has_no_style(content: Seq<char>, level: int, at: usize)
    ensures
        !has_style(plain(content), level, at),
        plain(content).content == content,
        !plain(content).selected,
{
}

/// The value of a styled text holds its characters, its styles and whether it is
/// selected.
pub proof fn law_painted_is_the_text(t: Text)
    ensures
        painted(t).content == text_content(t),
        painted(t).levels == text_levels(t),
        painted(t).selected == text_selected(t),
{
}

/// What a row says: a dot, filled where the status is one of the three; the status
/// in seven columns, or more where it is longer; the session; the short form of the
/// working directory.
pub proof fn law_row_says(e: VisibleView, selected: bool)
    ensures
        ({
            let row = row_view(e, selected);
            let w: int = if e.status.len() < 7 { 7 } else { e.status.len() as int };
            let s = 3 + w;
            let c = s + e.session.len() as int + 2;
            &&& row.selected == selected
            &&& row.content.len() == c + short_path(e.cwd).len()
            &&& row.content[0] == (if e.status == "idle"@ || e.status == "working"@ || e.status
                == "waiting"@ {
                '●'
            } else {
                '○'
            })
            &&& row.content[1] == ' '
            &&& row.content.subrange(2, 2 + e.status.len() as int) == e.status
            &&& forall|k: int| 2 + e.status.len() <= k < s ==> #[trigger] row.content[k] == ' '
            &&& row.content.subrange(s, s + e.session.len() as int) == e.session
            &&& row.content[c - 2] == ' '
            &&& row.content[c - 1] == ' '
            &&& row.content.skip(c) == short_path(e.cwd)
        }),
{
    reveal_strlit(" ");
    reveal_strlit("  ");
    assert(" "@.len() == 1 && " "@[0] == ' ');
    assert("  "@.len() == 2 && "  "@[0] == ' ' && "  "@[1] == ' ');
}

/// What a row looks like: the dot has the style of the row's status, and dim where
/// that is none of the three; the working directory is dim; nothing else has a
/// style.
pub proof fn law_row_looks(e: VisibleView, selected: bool, level: int, at: usize)
    requires
        row_view(e, selected).content.len() <= usize::MAX,
    ensures
        ({
            let row = row_view(e, selected);
            let start = row.content.len() - short_path(e.cwd).len();
            let dot: int = if e.status == "waiting"@ {
                6
            } else if e.status == "working"@ {
                2
            } else if e.status == "idle"@ {
                1
            } else {
                4
            };
            has_style(row, level, at) <==> (at == 0 && level == dot) || (level == 4 && start <= at
                < row.content.len())
        }),
{
    let lead = row_lead(e);
    let content = lead + short_path(e.cwd);
    let bare = plain(content);
    let dot: usize = if e.status == "waiting"@ {
        6
    } else if e.status == "working"@ {
        2
    } else if e.status == "idle"@ {
        1
    } else {
        4
    };
    let dotted = styled(bare, dot, 0, 1);
    law_plain_has_no_style(content, level, at);
    law_style_of_a_range(bare, dot, 0, 1, level, at);
    law_style_of_a_range(dotted, 4, lead.len() as usize, content.len() as usize, level, at);
}

proof fn lemma_one_style_throughout(content: Seq<char>, given: usize, level: int, at: usize)
    requires
        content.len() <= usize::MAX,
    ensures
        has_style(all_styled(content, given), level, at) <==> level == given && at < content.len(),
        all_styled(content, given).content == content,
        !all_styled(content, given).selected,
{
    law_plain_has_no_style(content, level, at);
    law_style_of_a_range(plain(content), given, 0, content.len() as usize, level, at);
}

/// Whether a drawing starts at the left edge of a row and is as wide as the plugin.
pub open spec fn fills_row(d: DrawingView, y: int, cols: usize) -> bool {
    d.x == 0 && d.y == y && d.width == Some(cols) && d.height is None
}

/// Whether a drawing says a text in one style and none other, not selected.
pub open spec fn says_in_style(
    d: DrawingView,
    content: Seq<char>,
    given: int,
    level: int,
    at: usize,
) -> bool {
    &&& d.text.content == content
    &&& !d.text.selected
    &&& has_style(d.text, level, at) <==> level == given && at < content.len()
}

/// The title stands highlighted in the first row of every drawing.
pub proof fn law_title_on_top(
    s: StateView,
    title: Seq<char>,
    cols: usize,
    level: int,
    at: usize,
)
    requires
        title.len() <= usize::MAX,
    ensures
        render_view(s, title, cols).len() > 0,
        fills_row(render_view(s, title, cols)[0], 0, cols),
        says_in_style(render_view(s, title, cols)[0], title, 2, level, at),
{
    lemma_one_style_throughout(title, 2, level, at);
}

/// With nothing on display, a dim line in the third row says so, and that is all
/// that follows the title.
pub proof fn law_empty_display_says_so(
    s: StateView,
    title: Seq<char>,
    cols: usize,
    level: int,
    at: usize,
)
    requires
        s.visible().len() == 0,
    ensures
        render_view(s, title, cols).len() == 2,
        fills_row(render_view(s, title, cols)[1], 2, cols),
        says_in_style(render_view(s, title, cols)[1], "(no active instances)"@, 4, level, at),
{
    reveal_strlit("(no active instances)");
    assert("(no active instances)"@.len() == 21);
    lemma_one_style_throughout("(no active instances)"@, 4, level, at);
}

/// With sessions on display, each has a row of its own, in order from the third row
/// on, and a dim hint follows after an empty row.
pub proof fn law_rows_in_order(
    s: StateView,
    title: Seq<char>,
    cols: usize,
    i: int,
    level: int,
    at: usize,
)
    requires
        0 <= i < s.visible().len(),
        s.visible().len() + 3 <= usize::MAX,
    ensures
        ({
            let drawn = render_view(s, title, cols);
            let rows = s.visible().len() as int;
            &&& drawn.len() == rows + 2
            &&& fills_row(drawn[i + 1], i + 2, cols)
            &&& drawn[i + 1].text == row_view(s.visible()[i], i == s.selected)
            &&& fills_row(drawn[rows + 1], rows + 3, cols)
            &&& says_in_style(
                drawn[rows + 1],
                "↑/↓ select   ⏎ jump   q/esc close"@,
                4,
                level,
                at,
            )
        }),
{
    reveal_strlit("↑/↓ select   ⏎ jump   q/esc close");
    assert("↑/↓ select   ⏎ jump   q/esc close"@.len() == 33);
    lemma_one_style_throughout("↑/↓ select   ⏎ jump   q/esc close"@, 4, level, at);
}

/// A drawing as a value is that text in that place.
pub proof fn law_drawing_view(d: Drawing, v: Seq<Drawing>)
    ensures
        d@.text == painted(d.text),
        d@.x == d.x,
        d@.y == d.y,
        d@.width == d.width,
        d@.height == d.height,
        drawing_views(v).len() == v.len(),
        forall|i: int| 0 <= i < v.len() ==> #[trigger] drawing_views(v)[i] == v[i]@,
{
}

proof fn lemma_no_slash_no_parent(name: Seq<char>, slashes: nat)
    requires
        forall|i: int| 0 <= i < name.len() ==> #[trigger] name[i] != '/',
    ensures
        without_slashes(name + Seq::new(slashes, |i: int| '/')) == name,
        last_component(name) == name,
    decreases slashes + name.len(),
{
    let cwd = name + Seq::new(slashes, |i: int| '/');
    if slashes > 0 {
        lemma_no_slash_no_parent(name, (slashes - 1) as nat);
        assert(cwd.last() == '/');
        assert(cwd.drop_last() =~= name + Seq::new((slashes - 1) as nat, |i: int| '/'));
    } else {
        assert(cwd =~= name);
        if name.len() > 0 {
            lemma_no_slash_no_parent(name.drop_last(), 0);
            assert(last_component(name) =~= name);
        } else {
            assert(last_component(name) =~= name);
        }
    }
}

/// A path with no slash but at its end, or with none at all, is shown as it is.
pub proof fn law_one_name_as_it_is(name: Seq<char>, slashes: nat)
    requires
        forall|i: int| 0 <= i < name.len() ==> #[trigger] name[i] != '/',
    ensures
        short_path(name + Seq::new(slashes, |i: int| '/')) == name + Seq::new(
            slashes,
            |i: int| '/',
        ),
{
    lemma_no_slash_no_parent(name, slashes);
}

} // verus!
