//! A row of the plugin: status, session and working directory.

use crate::plugin::paint::{
    color_range, dim_range, error_color_range, new_text, painted, plain, select, styled, Painted,
    ACCENT, DIM, ERROR, HIGHLIGHT,
};
use crate::plugin::panes::{VisibleEntry, VisibleView};
use crate::text::{from_chars, padded, push_padded, same_text, to_chars};
use vstd::prelude::*;
use vstd::string::*;
use zellij_tile::ui_components::Text;

verus! {

/// A path without the slashes at its end.
pub open spec fn without_slashes(path: Seq<char>) -> Seq<char>
    decreases path.len(),
{
    if path.len() > 0 && path.last() == '/' {
        without_slashes(path.drop_last())
    } else {
        path
    }
}

/// What follows the last slash of a path, all of a path without one.
pub open spec fn last_component(path: Seq<char>) -> Seq<char>
    decreases path.len(),
{
    if path.len() == 0 || path.last() == '/' {
        Seq::empty()
    } else {
        last_component(path.drop_last()).push(path.last())
    }
}

/// The last two components of a path behind an ellipsis; a path of one component
/// as it is.
pub open spec fn short_path(cwd: Seq<char>) -> Seq<char> {
    let path = without_slashes(cwd);
    let name = last_component(path);
    if name.len() == path.len() {
        cwd
    } else {
        let parent = last_component(path.take(path.len() - name.len() - 1));
        seq!['…', '/'] + parent + seq!['/'] + name
    }
}

fn end_without_slashes(path: &Vec<char>) -> (end: usize)
    ensures
        end <= path@.len(),
        path@.take(end as int) == without_slashes(path@),
{
    let mut end: usize = path.len();
    assert(path@.take(end as int) =~= path@);
    while end > 0 && path[end - 1] == '/'
        invariant
            end <= path@.len(),
            without_slashes(path@) == without_slashes(path@.take(end as int)),
        decreases end,
    {
        assert(path@.take(end as int).drop_last() =~= path@.take(end - 1));
        end = end - 1;
    }
    end
}

fn start_of_component(path: &Vec<char>, end: usize) -> (start: usize)
    requires
        end <= path@.len(),
    ensures
        start <= end,
        path@.subrange(start as int, end as int) == last_component(path@.take(end as int)),
        start > 0 ==> path@[start - 1] == '/',
{
    let mut start: usize = end;
    let ghost whole = path@.take(end as int);
    assert(last_component(whole) =~= last_component(path@.take(start as int)) + path@.subrange(
        start as int,
        end as int,
    ));
    while start > 0 && path[start - 1] != '/'
        invariant
            start <= end <= path@.len(),
            whole == path@.take(end as int),
            last_component(whole) == last_component(path@.take(start as int)) + path@.subrange(
                start as int,
                end as int,
            ),
        decreases start,
    {
        assert(path@.take(start as int).drop_last() =~= path@.take(start - 1));
        assert(last_component(path@.take(start as int)) == last_component(
            path@.take(start - 1),
        ).push(path@[start - 1]));
        assert(last_component(whole) =~= last_component(path@.take(start - 1)) + path@.subrange(
            start - 1,
            end as int,
        ));
        start = start - 1;
    }
    assert(last_component(path@.take(start as int)) =~= Seq::empty());
    assert(last_component(whole) =~= path@.subrange(start as int, end as int));
    start
}

/// Shows the last two components of a working directory, to keep rows short.
pub fn shorten(cwd: &str) -> (s: String)
    ensures
        s@ == short_path(cwd@),
{
    let path: Vec<char> = to_chars(cwd);
    let end: usize = end_without_slashes(&path);
    let name: usize = start_of_component(&path, end);
    let ghost trimmed = without_slashes(cwd@);
    if name == 0 {
        return cwd.to_owned();
    }
    let parent: usize = start_of_component(&path, name - 1);
    assert(trimmed.take(name - 1) =~= path@.take(name - 1));
    let mut s: String = String::new();
    s.push('…');
    s.push('/');
    s.append(from_chars(&path, parent, name - 1).as_str());
    s.push('/');
    s.append(from_chars(&path, name, end).as_str());
    assert(s@ =~= short_path(cwd@));
    s
}

/// Whether a status is one of the three that sessions have.
pub open spec fn is_known_status(status: Seq<char>) -> bool {
    status == "idle"@ || status == "working"@ || status == "waiting"@
}

/// The characters of a row before the working directory.
pub open spec fn row_lead(entry: VisibleView) -> Seq<char> {
    let glyph = if is_known_status(entry.status) {
        '●'
    } else {
        '○'
    };
    seq![glyph, ' '] + padded(entry.status, 7) + " "@ + entry.session + "  "@
}

/// A row: the dot colored by status, the working directory dimmed.
pub open spec fn row_view(entry: VisibleView, selected: bool) -> Painted {
    let lead = row_lead(entry);
    let content = lead + short_path(entry.cwd);
    let bare = plain(content);
    let dotted = if entry.status == "waiting"@ {
        styled(bare, ERROR, 0, 1)
    } else if entry.status == "working"@ {
        styled(bare, HIGHLIGHT, 0, 1)
    } else if entry.status == "idle"@ {
        styled(bare, ACCENT, 0, 1)
    } else {
        styled(bare, DIM, 0, 1)
    };
    let dimmed = styled(dotted, DIM, lead.len() as usize, content.len() as usize);
    Painted { selected, ..dimmed }
}

/// A row of the list.
pub fn row_text(entry: &VisibleEntry, selected: bool) -> (text: Text)
    ensures
        painted(text) == row_view(entry@, selected),
{
    let status: &str = entry.status.as_str();
    let waiting: bool = same_text(status, "waiting");
    let working: bool = same_text(status, "working");
    let idle: bool = same_text(status, "idle");
    let mut content: String = String::new();
    content.push(
        if idle || working || waiting {
            '●'
        } else {
            '○'
        },
    );
    content.push(' ');
    push_padded(&mut content, status, 7);
    content.append(" ");
    content.append(entry.session.as_str());
    content.append("  ");
    assert(content@ =~= row_lead(entry@));
    let cwd: String = shorten(entry.cwd.as_str());
    let cwd_start: usize = content.as_str().unicode_len();
    content.append(cwd.as_str());
    let end: usize = content.as_str().unicode_len();
    let bare: Text = new_text(content.as_str());
    let dotted: Text = if waiting {
        error_color_range(bare, 0, 1)
    } else if working {
        color_range(bare, HIGHLIGHT, 0, 1)
    } else if idle {
        color_range(bare, ACCENT, 0, 1)
    } else {
        dim_range(bare, 0, 1)
    };
    let dimmed: Text = dim_range(dotted, cwd_start, end);
    if selected {
        select(dimmed)
    } else {
        dimmed
    }
}

} // verus!
