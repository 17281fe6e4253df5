//! What holds of the plugin as a whole.

use crate::plugin::paint::{positions, DIM};
use crate::plugin::panes::{
    entry_for, has_terminal, lookup, reported_views, session_named, session_views, tab_of,
    visible_entries, visible_views, Pane, ReportedInstance, ReportedView, Session, SessionView, Tab,
    TabView, VisibleEntry, VisibleView,
};
use crate::plugin::row::{
    is_known_status, last_component, row_lead, row_view, short_path, without_slashes,
};
use crate::plugin::state::{
    after_event, after_key, command_views, configured, configured_url, event_commands, event_draws,
    is_close, is_down, is_up, key_commands, load_commands, poll_command, render_view, Command,
    CommandView, Event, EventKind, Key, Permission, StateView,
};
use crate::registry::InstanceView;
use crate::server::{record_of, InstanceRecordView};
use vstd::prelude::*;

verus! {

/// A session without a Zellij location is not shown.
pub proof fn law_no_location_not_shown(sessions: Seq<SessionView>, inst: ReportedView)
    requires
        inst.zellij_session.len() == 0 || inst.zellij_pane is None,
    ensures
        entry_for(sessions, inst) is None,
{
}

/// A session whose pane is gone is not shown.
pub proof fn law_gone_pane_not_shown(sessions: Seq<SessionView>, inst: ReportedView)
    requires
        inst.zellij_pane is Some,
        lookup(sessions, inst.zellij_session, inst.zellij_pane->0) is Dead,
    ensures
        entry_for(sessions, inst) is None,
{
}

/// A session with a Zellij location is shown unless its pane is known to be gone,
/// with the status that was reported: also while Zellij has told nothing of its
/// session yet.
pub proof fn law_others_shown(sessions: Seq<SessionView>, inst: ReportedView)
    requires
        inst.zellij_session.len() > 0,
        inst.zellij_pane is Some,
        !(lookup(sessions, inst.zellij_session, inst.zellij_pane->0) is Dead),
    ensures
        entry_for(sessions, inst) matches Some(e) && {
            &&& e.session == inst.zellij_session
            &&& e.pane_id == inst.zellij_pane->0
            &&& e.status == inst.status
            &&& e.cwd == inst.cwd
        },
{
}

/// What is on display comes from the report, item by item and in its order: the
/// display of two lists one after the other is their displays one after the
/// other.
pub proof fn law_display_keeps_order(
    a: Seq<ReportedView>,
    b: Seq<ReportedView>,
    sessions: Seq<SessionView>,
)
    ensures
        visible_entries(a + b, sessions) == visible_entries(a, sessions) + visible_entries(
            b,
            sessions,
        ),
    decreases b.len(),
{
    if b.len() == 0 {
        assert(a + b =~= a);
        assert(visible_entries(b, sessions) =~= Seq::empty());
    } else {
        law_display_keeps_order(a, b.drop_last(), sessions);
        assert((a + b).drop_last() =~= a + b.drop_last());
        assert((a + b).last() == b.last());
    }
    assert(visible_entries(a + b, sessions) =~= visible_entries(a, sessions) + visible_entries(
        b,
        sessions,
    ));
}

/// On display is what some reported session is shown as, and nothing else.
pub proof fn law_display_is_the_report(
    reported: Seq<ReportedView>,
    sessions: Seq<SessionView>,
    e: VisibleView,
)
    ensures
        visible_entries(reported, sessions).contains(e) <==> exists|i: int|
            0 <= i < reported.len() && entry_for(sessions, #[trigger] reported[i]) == Some(e),
    decreases reported.len(),
{
    let shown = visible_entries(reported, sessions);
    if reported.len() > 0 {
        let rest = reported.drop_last();
        let earlier = visible_entries(rest, sessions);
        law_display_is_the_report(rest, sessions, e);
        if shown.contains(e) {
            let k = shown.index_of(e);
            if k < earlier.len() {
                assert(earlier[k] == e);
                assert(earlier.contains(e));
                let i = choose|i: int|
                    0 <= i < rest.len() && entry_for(sessions, #[trigger] rest[i]) == Some(e);
                assert(reported[i] == rest[i]);
            } else {
                assert(reported[reported.len() - 1] == reported.last());
            }
        }
        if exists|i: int|
            0 <= i < reported.len() && entry_for(sessions, #[trigger] reported[i]) == Some(e) {
            let i = choose|i: int|
                0 <= i < reported.len() && entry_for(sessions, #[trigger] reported[i]) == Some(e);
            if i < rest.len() {
                assert(rest[i] == reported[i]);
                assert(earlier.contains(e));
                let k = earlier.index_of(e);
                assert(shown[k] == e);
            } else {
                assert(shown[earlier.len() as int] == e);
            }
        }
    }
}

/// The order in which the tabs of a session come does not matter, as long as a
/// terminal pane is in one tab only.
pub proof fn law_tab_order_does_not_matter(a: Seq<TabView>, b: Seq<TabView>, pane_id: u32)
    requires
        forall|t: TabView| #[trigger] a.contains(t) <==> b.contains(t),
        forall|t: TabView, u: TabView| #[trigger]
            a.contains(t) && #[trigger] a.contains(u) && has_terminal(t.panes, pane_id)
                && has_terminal(u.panes, pane_id) ==> t == u,
    ensures
        tab_of(a, pane_id) == tab_of(b, pane_id),
{
    lemma_tab_of(a, pane_id);
    lemma_tab_of(b, pane_id);
    if tab_of(a, pane_id) is Some {
        let i = choose|i: int|
            0 <= i < a.len() && has_terminal((#[trigger] a[i]).panes, pane_id) && tab_of(a, pane_id)
                == Some(a[i].position);
        assert(a.contains(a[i]));
        assert(b.contains(a[i]));
        let k = b.index_of(a[i]);
        assert(has_terminal(b[k].panes, pane_id));
    }
    if tab_of(b, pane_id) is Some {
        let j = choose|j: int|
            0 <= j < b.len() && has_terminal((#[trigger] b[j]).panes, pane_id) && tab_of(b, pane_id)
                == Some(b[j].position);
        assert(b.contains(b[j]));
        assert(a.contains(b[j]));
        let k = a.index_of(b[j]);
        assert(has_terminal(a[k].panes, pane_id));
    }
}

proof fn lemma_tab_of(tabs: Seq<TabView>, pane_id: u32)
    ensures
        tab_of(tabs, pane_id) is Some ==> exists|i: int|
            0 <= i < tabs.len() && has_terminal((#[trigger] tabs[i]).panes, pane_id) && tab_of(
                tabs,
                pane_id,
            ) == Some(tabs[i].position),
        tab_of(tabs, pane_id) is None ==> forall|i: int|
            0 <= i < tabs.len() ==> !has_terminal((#[trigger] tabs[i]).panes, pane_id),
    decreases tabs.len(),
{
    if tabs.len() > 0 && !has_terminal(tabs[0].panes, pane_id) {
        let rest = tabs.drop_first();
        lemma_tab_of(rest, pane_id);
        if tab_of(rest, pane_id) is Some {
            let i = choose|i: int|
                0 <= i < rest.len() && has_terminal((#[trigger] rest[i]).panes, pane_id) && tab_of(
                    rest,
                    pane_id,
                ) == Some(rest[i].position);
            assert(tabs[i + 1] == rest[i]);
        } else {
            assert forall|i: int| 0 <= i < tabs.len() implies !has_terminal(
                (#[trigger] tabs[i]).panes,
                pane_id,
            ) by {
                if i > 0 {
                    assert(tabs[i] == rest[i - 1]);
                }
            }
        }
    }
}

/// Every event leaves the selection on the display.
pub proof fn law_selection_stays_valid(s: StateView, event: Event)
    requires
        s.selection_valid(),
    ensures
        after_event(s, event).selection_valid(),
{
}

/// A key moves the selection and nothing else.
pub proof fn law_keys_move_selection_only(s: StateView, key: Key)
    ensures
        after_key(s, key) == (StateView { selected: after_key(s, key).selected, ..s }),
        after_key(s, key).visible() == s.visible(),
{
}

/// Up undoes down, and down undoes up, wherever there was room to move.
pub proof fn law_up_and_down_undo_each_other(s: StateView, up: Key, down: Key)
    requires
        is_up(up),
        is_down(down),
        s.selection_valid(),
        s.visible().len() <= usize::MAX,
    ensures
        s.selected + 1 < s.visible().len() ==> after_key(after_key(s, down), up) == s,
        s.selected > 0 ==> after_key(after_key(s, up), down) == s,
{
}

/// With sessions on display, `Enter` goes to the pane of the selected one and then
/// closes the plugin: it focuses the pane where it is in the current session, and
/// switches to its session otherwise. It moves no selection.
pub proof fn law_enter_goes_to_the_selected(s: StateView)
    requires
        s.selection_valid(),
        s.visible().len() > 0,
    ensures
        ({
            let e = s.visible()[s.selected as int];
            key_commands(s, Key::Enter) == seq![
                if e.is_current_session {
                    CommandView::FocusTerminalPane { pane_id: e.pane_id }
                } else {
                    CommandView::SwitchSession {
                        session: e.session,
                        tab: e.tab,
                        pane_id: e.pane_id,
                    }
                },
                CommandView::CloseSelf,
            ]
        }),
        after_key(s, Key::Enter) == s,
{
}

/// With nothing on display, `Enter` does nothing.
pub proof fn law_enter_on_empty_display(s: StateView)
    requires
        s.visible().len() == 0,
    ensures
        key_commands(s, Key::Enter) == Seq::<CommandView>::empty(),
{
}

/// The keys that close the plugin do that and nothing else.
pub proof fn law_close_keys_close(s: StateView, key: Key)
    requires
        is_close(key),
    ensures
        key_commands(s, key) == seq![CommandView::CloseSelf],
        after_key(s, key) == s,
{
}

/// A poll that fails, or whose answer is not a list of sessions, changes nothing.
pub proof fn law_failed_poll_changes_nothing(s: StateView, event: Event)
    requires
        event matches Event::WebRequestResult { status, instances } && (status != 200
            || instances is None),
    ensures
        after_event(s, event) == s,
        !event_draws(event),
        event_commands(s, event) == Seq::<CommandView>::empty(),
{
}

/// Each poll by the timer sets the timer for the next one, a second later.
pub proof fn law_polling_goes_on(s: StateView)
    ensures
        event_commands(s, Event::Timer) == seq![
            poll_command(s),
            CommandView::SetTimeout { secs: 1 },
        ],
        after_event(s, Event::Timer) == s,
{
}

/// Of the rows that are drawn, the selected one alone is drawn as selected.
pub proof fn law_one_row_selected(s: StateView, title: Seq<char>, cols: usize, i: int)
    requires
        s.selection_valid(),
        0 <= i < s.visible().len(),
    ensures
        s.selected < s.visible().len(),
        render_view(s, title, cols)[i + 1].text.selected == (i == s.selected),
        render_view(s, title, cols).len() == s.visible().len() + 2,
{
}

/// A row ends with the short form of the working directory, and that part is
/// dimmed.
pub proof fn law_row_ends_with_dimmed_path(e: VisibleView, selected: bool)
    requires
        (row_lead(e) + short_path(e.cwd)).len() <= usize::MAX,
    ensures
        ({
            let row = row_view(e, selected);
            let start = row_lead(e).len() as int;
            &&& row.content.skip(start) == short_path(e.cwd)
            &&& row.levels.len() > DIM
            &&& forall|p: usize|
                start <= p < row.content.len() ==> #[trigger] row.levels[DIM as int].contains(p)
        }),
{
    let row = row_view(e, selected);
    let start = row_lead(e).len() as int;
    assert(row.content.skip(start) =~= short_path(e.cwd));
    let dims = positions(start as usize, row.content.len() as usize);
    let all = row.levels[DIM as int];
    let k = all.len() - dims.len();
    assert forall|p: usize| start <= p < row.content.len() implies #[trigger] all.contains(p) by {
        assert(dims[p - start] == p);
        assert(all[k + (p - start)] == p);
    }
}

/// The short form of a path of two or more components is its last two, whatever
/// comes before them and however many slashes come after.
pub proof fn law_last_two_components(
    before: Seq<char>,
    parent: Seq<char>,
    name: Seq<char>,
    slashes: nat,
)
    requires
        !parent.contains('/'),
        !name.contains('/'),
        name.len() > 0,
        before.len() > 0 ==> before.last() == '/',
    ensures
        short_path(before + parent + seq!['/'] + name + Seq::new(slashes, |i: int| '/')) == seq![
            '…',
            '/',
        ] + parent + seq!['/'] + name,
{
    let path = before + parent + seq!['/'] + name;
    assert(path.last() == name.last());
    assert(name.contains(name.last()));
    lemma_slashes_dropped(path, slashes);
    lemma_component_after(before + parent + seq!['/'], name);
    lemma_component_after(before, parent);
    assert(path.take(path.len() - name.len() - 1) =~= before + parent);
}

proof fn lemma_slashes_dropped(path: Seq<char>, slashes: nat)
    requires
        path.len() > 0,
        path.last() != '/',
    ensures
        without_slashes(path + Seq::new(slashes, |i: int| '/')) == path,
    decreases slashes,
{
    let longer = path + Seq::new(slashes, |i: int| '/');
    if slashes == 0 {
        assert(longer =~= path);
    } else {
        lemma_slashes_dropped(path, (slashes - 1) as nat);
        assert(longer.last() == '/');
        assert(longer.drop_last() =~= path + Seq::new((slashes - 1) as nat, |i: int| '/'));
    }
}

proof fn lemma_component_after(before: Seq<char>, name: Seq<char>)
    requires
        !name.contains('/'),
        before.len() > 0 ==> before.last() == '/',
    ensures
        last_component(before + name) == name,
    decreases name.len(),
{
    let path = before + name;
    if name.len() == 0 {
        assert(path =~= before);
        assert(last_component(path) =~= name);
    } else {
        assert(name.contains(name.last()));
        assert(!name.drop_last().contains('/')) by {
            if name.drop_last().contains('/') {
                let i = name.drop_last().index_of('/');
                assert(name[i] == '/');
            }
        }
        lemma_component_after(before, name.drop_last());
        assert(path.drop_last() =~= before + name.drop_last());
        assert(path.last() == name.last());
        assert(last_component(path) =~= name);
    }
}

/// A path of one component is shown as it is.
pub proof fn law_single_component_as_is(cwd: Seq<char>)
    requires
        !without_slashes(cwd).contains('/'),
    ensures
        short_path(cwd) == cwd,
{
    let path = without_slashes(cwd);
    lemma_component_after(Seq::empty(), path);
    assert(Seq::<char>::empty() + path =~= path);
}

/// What the plugin reads of a record that the server sends: the fields that it
/// uses, by their names, empty where the record leaves them out.
pub open spec fn received(record: InstanceRecordView) -> ReportedView {
    ReportedView {
        zellij_session: match record.zellij_session {
            Some(s) => s,
            None => Seq::empty(),
        },
        zellij_pane: record.zellij_pane,
        status: record.status,
        cwd: match record.cwd {
            Some(s) => s,
            None => Seq::empty(),
        },
    }
}

/// A session that the server tracks in Zellij shows up in the plugin with its
/// status and directory, under a filled dot, unless its pane is known to be gone.
pub proof fn law_tracked_session_shows_up(i: InstanceView, sessions: Seq<SessionView>)
    requires
        i.zellij_session.len() > 0,
        i.zellij_pane is Some,
        !(lookup(sessions, i.zellij_session, i.zellij_pane->0) is Dead),
    ensures
        entry_for(sessions, received(record_of(i))) matches Some(e) && {
            &&& e.session == i.zellij_session
            &&& e.pane_id == i.zellij_pane->0
            &&& e.status == i.status.name()
            &&& e.cwd == i.cwd
            &&& is_known_status(e.status)
            &&& row_lead(e)[0] == '●'
        },
{
    if i.cwd.len() == 0 {
        assert(i.cwd =~= Seq::empty());
    }
}

/// A session that the server tracks outside Zellij does not show up in the plugin.
pub proof fn law_session_outside_zellij_not_shown(i: InstanceView, sessions: Seq<SessionView>)
    requires
        i.zellij_session.len() == 0 || i.zellij_pane is None,
    ensures
        entry_for(sessions, received(record_of(i))) is None,
{
}

/// Whether the session at `n` is the first one of a name.
pub open spec fn is_first_named(sessions: Seq<SessionView>, name: Seq<char>, n: int) -> bool {
    &&& 0 <= n < sessions.len()
    &&& sessions[n].name == name
    &&& forall|m: int| 0 <= m < n ==> (#[trigger] sessions[m]).name != name
}

/// Whether the pane at `i` of the tab at `t` is the terminal pane of an id, whatever
/// else the tab holds.
pub open spec fn is_terminal_at(tabs: Seq<TabView>, pane_id: u32, t: int, i: int) -> bool {
    &&& 0 <= t < tabs.len()
    &&& 0 <= i < tabs[t].panes.len()
    &&& tabs[t].panes[i].id == pane_id
    &&& !tabs[t].panes[i].is_plugin
}

proof fn lemma_first_named(sessions: Seq<SessionView>, name: Seq<char>)
    ensures
        forall|n: int| #[trigger]
            is_first_named(sessions, name, n) ==> session_named(sessions, name) == Some(
                sessions[n],
            ),
        session_named(sessions, name) is Some ==> exists|n: int|
            is_first_named(sessions, name, n),
        session_named(sessions, name) is None <==> forall|n: int|
            0 <= n < sessions.len() ==> (#[trigger] sessions[n]).name != name,
    decreases sessions.len(),
{
    if sessions.len() > 0 {
        let rest = sessions.drop_first();
        lemma_first_named(rest, name);
        if sessions[0].name == name {
            assert(is_first_named(sessions, name, 0));
            assert forall|n: int| #[trigger] is_first_named(sessions, name, n) implies n == 0 by {
                if n > 0 {
                    assert(sessions[0].name != name);
                }
            }
        } else {
            assert forall|n: int| #[trigger] is_first_named(sessions, name, n) implies session_named(
                sessions,
                name,
            ) == Some(sessions[n]) by {
                assert(rest[n - 1] == sessions[n]);
                assert forall|m: int| 0 <= m < n - 1 implies (#[trigger] rest[m]).name != name by {
                    assert(rest[m] == sessions[m + 1]);
                }
                assert(is_first_named(rest, name, n - 1));
            }
            if session_named(sessions, name) is Some {
                let k = choose|k: int| is_first_named(rest, name, k);
                assert(sessions[k + 1] == rest[k]);
                assert forall|m: int| 0 <= m < k + 1 implies (#[trigger] sessions[m]).name
                    != name by {
                    if m > 0 {
                        assert(rest[m - 1] == sessions[m]);
                    }
                }
                assert(is_first_named(sessions, name, k + 1));
                assert(sessions[k + 1].name == name);
            } else {
                assert forall|n: int| 0 <= n < sessions.len() implies (
                #[trigger] sessions[n]).name != name by {
                    if n > 0 {
                        assert(rest[n - 1] == sessions[n]);
                    }
                }
            }
        }
    }
}

proof fn lemma_has_terminal(tabs: Seq<TabView>, pane_id: u32, t: int)
    requires
        0 <= t < tabs.len(),
    ensures
        has_terminal(tabs[t].panes, pane_id) <==> exists|i: int|
            is_terminal_at(tabs, pane_id, t, i),
{
    let panes = tabs[t].panes;
    if has_terminal(panes, pane_id) {
        let i = choose|i: int|
            0 <= i < panes.len() && (#[trigger] panes[i]).id == pane_id && !panes[i].is_plugin;
        assert(is_terminal_at(tabs, pane_id, t, i));
    }
    if exists|i: int| is_terminal_at(tabs, pane_id, t, i) {
        let i = choose|i: int| is_terminal_at(tabs, pane_id, t, i);
        assert(panes[i].id == pane_id && !panes[i].is_plugin);
    }
}

/// The tab that is found is the first that holds the pane.
proof fn lemma_first_tab(tabs: Seq<TabView>, pane_id: u32, t: int, i: int)
    requires
        is_terminal_at(tabs, pane_id, t, i),
        forall|u: int, j: int| 0 <= u < t ==> !#[trigger] is_terminal_at(tabs, pane_id, u, j),
    ensures
        tab_of(tabs, pane_id) == Some(tabs[t].position),
    decreases tabs.len(),
{
    lemma_has_terminal(tabs, pane_id, 0);
    if t > 0 {
        let rest = tabs.drop_first();
        assert forall|u: int, j: int| 0 <= u < t - 1 implies !#[trigger] is_terminal_at(
            rest,
            pane_id,
            u,
            j,
        ) by {
            assert(!is_terminal_at(tabs, pane_id, u + 1, j));
        }
        assert(rest[t - 1] == tabs[t]);
        assert(is_terminal_at(rest, pane_id, t - 1, i));
        lemma_first_tab(rest, pane_id, t - 1, i);
    }
}

/// A pane is alive exactly when some tab of the first Zellij session of that name
/// holds a pane of that id that is no plugin's, whatever other panes the tab holds;
/// nothing is known of it exactly when no session has that name.
pub proof fn law_alive_where_the_terminal_is(
    sessions: Seq<SessionView>,
    name: Seq<char>,
    pane_id: u32,
)
    ensures
        lookup(sessions, name, pane_id) is Alive <==> exists|n: int, t: int, i: int|
            0 <= n < sessions.len() && sessions[n].name == name && (forall|m: int|
                0 <= m < n ==> (#[trigger] sessions[m]).name != name) && 0 <= t
                < sessions[n].tabs.len() && 0 <= i < sessions[n].tabs[t].panes.len() && (
            #[trigger] sessions[n].tabs[t].panes[i]).id == pane_id
                && !sessions[n].tabs[t].panes[i].is_plugin,
        lookup(sessions, name, pane_id) is UnknownSession <==> forall|n: int|
            0 <= n < sessions.len() ==> (#[trigger] sessions[n]).name != name,
{
    lemma_first_named(sessions, name);
    if session_named(sessions, name) is Some {
        let n = choose|n: int| is_first_named(sessions, name, n);
        let tabs = sessions[n].tabs;
        lemma_tab_of(tabs, pane_id);
        if lookup(sessions, name, pane_id) is Alive {
            let t = choose|t: int|
                0 <= t < tabs.len() && has_terminal((#[trigger] tabs[t]).panes, pane_id) && tab_of(
                    tabs,
                    pane_id,
                ) == Some(tabs[t].position);
            lemma_has_terminal(tabs, pane_id, t);
            let i = choose|i: int| is_terminal_at(tabs, pane_id, t, i);
            assert(sessions[n].tabs[t].panes[i].id == pane_id);
        }
        assert forall|k: int, t: int, i: int|
            0 <= k < sessions.len() && sessions[k].name == name && (forall|m: int|
                0 <= m < k ==> (#[trigger] sessions[m]).name != name) && 0 <= t
                < sessions[k].tabs.len() && 0 <= i < sessions[k].tabs[t].panes.len() && (
            #[trigger] sessions[k].tabs[t].panes[i]).id == pane_id
                && !sessions[k].tabs[t].panes[i].is_plugin implies lookup(
            sessions,
            name,
            pane_id,
        ) is Alive by {
            assert(is_first_named(sessions, name, k));
            assert(session_named(sessions, name) == Some(sessions[k]));
            let held = sessions[k].tabs;
            assert(is_terminal_at(held, pane_id, t, i));
            lemma_has_terminal(held, pane_id, t);
            lemma_tab_of(held, pane_id);
            assert(has_terminal(held[t].panes, pane_id));
        }
    }
}

/// A pane that is added to a tab, of whatever kind, takes no other pane off the
/// display.
pub proof fn law_more_panes_hide_none(
    sessions: Seq<SessionView>,
    name: Seq<char>,
    pane_id: u32,
    n: int,
    t: int,
    at: int,
    pane: Pane,
)
    requires
        0 <= n < sessions.len(),
        0 <= t < sessions[n].tabs.len(),
        0 <= at <= sessions[n].tabs[t].panes.len(),
        lookup(sessions, name, pane_id) is Alive,
    ensures
        lookup(
            sessions.update(
                n,
                SessionView {
                    tabs: sessions[n].tabs.update(
                        t,
                        TabView {
                            panes: sessions[n].tabs[t].panes.insert(at, pane),
                            ..sessions[n].tabs[t]
                        },
                    ),
                    ..sessions[n]
                },
            ),
            name,
            pane_id,
        ) is Alive,
{
    let tab = TabView {
        panes: sessions[n].tabs[t].panes.insert(at, pane),
        ..sessions[n].tabs[t]
    };
    let session = SessionView { tabs: sessions[n].tabs.update(t, tab), ..sessions[n] };
    let more = sessions.update(n, session);
    law_alive_where_the_terminal_is(sessions, name, pane_id);
    law_alive_where_the_terminal_is(more, name, pane_id);
    let (k, u, i) = choose|k: int, u: int, i: int|
        0 <= k < sessions.len() && sessions[k].name == name && (forall|m: int|
            0 <= m < k ==> (#[trigger] sessions[m]).name != name) && 0 <= u
            < sessions[k].tabs.len() && 0 <= i < sessions[k].tabs[u].panes.len() && (
        #[trigger] sessions[k].tabs[u].panes[i]).id == pane_id
            && !sessions[k].tabs[u].panes[i].is_plugin;
    let j = if k == n && u == t && at <= i { i + 1 } else { i };
    assert(more[k].tabs[u].panes[j] == sessions[k].tabs[u].panes[i]);
    assert(more[k].name == sessions[k].name);
    assert forall|m: int| 0 <= m < k implies (#[trigger] more[m]).name != name by {
        assert(more[m].name == sessions[m].name);
    }
    assert(more[k].tabs[u].panes[j].id == pane_id);
}

/// A session that is shown, and whose Zellij session is known, carries the flag of
/// the first Zellij session of its name, and the position of the first tab there
/// that holds its terminal pane; what else it carries is as reported.
pub proof fn law_shown_where_it_runs(
    sessions: Seq<SessionView>,
    inst: ReportedView,
    n: int,
    t: int,
    i: int,
)
    requires
        inst.zellij_session.len() > 0,
        inst.zellij_pane is Some,
        is_first_named(sessions, inst.zellij_session, n),
        is_terminal_at(sessions[n].tabs, inst.zellij_pane->0, t, i),
        forall|u: int, j: int|
            0 <= u < t ==> !#[trigger] is_terminal_at(
                sessions[n].tabs,
                inst.zellij_pane->0,
                u,
                j,
            ),
    ensures
        entry_for(sessions, inst) matches Some(e) && {
            &&& e.is_current_session == sessions[n].is_current
            &&& e.tab == Some(sessions[n].tabs[t].position)
            &&& e.session == inst.zellij_session
            &&& e.pane_id == inst.zellij_pane->0
            &&& e.status == inst.status
            &&& e.cwd == inst.cwd
        },
{
    lemma_first_named(sessions, inst.zellij_session);
    lemma_first_tab(sessions[n].tabs, inst.zellij_pane->0, t, i);
}

/// A session with a Zellij location is shown as reported, in no known tab and not in
/// the current session, while no Zellij session has its name.
pub proof fn law_shown_before_zellij_tells(sessions: Seq<SessionView>, inst: ReportedView)
    requires
        inst.zellij_session.len() > 0,
        inst.zellij_pane is Some,
        forall|n: int|
            0 <= n < sessions.len() ==> (#[trigger] sessions[n]).name != inst.zellij_session,
    ensures
        entry_for(sessions, inst) matches Some(e) && {
            &&& !e.is_current_session
            &&& e.tab is None
            &&& e.session == inst.zellij_session
            &&& e.pane_id == inst.zellij_pane->0
            &&& e.status == inst.status
            &&& e.cwd == inst.cwd
        },
{
    lemma_first_named(sessions, inst.zellij_session);
}

/// A session whose Zellij session is known is not shown where no tab of it holds
/// the terminal pane.
pub proof fn law_not_shown_without_its_pane(sessions: Seq<SessionView>, inst: ReportedView, n: int)
    requires
        inst.zellij_pane is Some,
        is_first_named(sessions, inst.zellij_session, n),
        forall|t: int, i: int|
            !#[trigger] is_terminal_at(sessions[n].tabs, inst.zellij_pane->0, t, i),
    ensures
        entry_for(sessions, inst) is None,
{
    let tabs = sessions[n].tabs;
    let pane_id = inst.zellij_pane->0;
    lemma_first_named(sessions, inst.zellij_session);
    lemma_tab_of(tabs, pane_id);
    if tab_of(tabs, pane_id) is Some {
        let t = choose|t: int|
            0 <= t < tabs.len() && has_terminal((#[trigger] tabs[t]).panes, pane_id) && tab_of(
                tabs,
                pane_id,
            ) == Some(tabs[t].position);
        lemma_has_terminal(tabs, pane_id, t);
    }
}

/// One reported session makes one row, or none where it is not shown.
pub proof fn law_one_row_each(inst: ReportedView, sessions: Seq<SessionView>)
    ensures
        entry_for(sessions, inst) is Some ==> visible_entries(seq![inst], sessions) == seq![
            entry_for(sessions, inst)->0,
        ],
        entry_for(sessions, inst) is None ==> visible_entries(seq![inst], sessions).len() == 0,
        visible_entries(Seq::empty(), sessions).len() == 0,
{
    let one = seq![inst];
    assert(one.last() == inst);
    assert(one.drop_last() =~= Seq::empty());
    assert(visible_entries(one.drop_last(), sessions) =~= Seq::empty());
}

/// `Enter` goes by the list of sessions: with the first session of the selected
/// row's name at `n`, it focuses the pane where that session is the current one,
/// and switches to it, to a tab that is known, wherever it is not. With no session
/// of that name it switches too.
pub proof fn law_enter_switches_unless_current(s: StateView, n: int)
    requires
        s.selection_valid(),
        s.visible().len() > 0,
    ensures
        ({
            let e = s.visible()[s.selected as int];
            let commands = key_commands(s, Key::Enter);
            let known = is_first_named(s.sessions, e.session, n);
            let unknown = forall|m: int|
                0 <= m < s.sessions.len() ==> (#[trigger] s.sessions[m]).name != e.session;
            &&& commands.len() == 2
            &&& commands[1] == CommandView::CloseSelf
            &&& known && s.sessions[n].is_current ==> commands[0]
                == (CommandView::FocusTerminalPane { pane_id: e.pane_id })
            &&& known && !s.sessions[n].is_current ==> e.tab is Some && commands[0]
                == (CommandView::SwitchSession {
                session: e.session,
                tab: e.tab,
                pane_id: e.pane_id,
            })
            &&& unknown ==> commands[0] == (CommandView::SwitchSession {
                session: e.session,
                tab: None,
                pane_id: e.pane_id,
            })
        }),
{
    let e = s.visible()[s.selected as int];
    assert(s.visible().contains(e));
    law_display_is_the_report(s.reported, s.sessions, e);
    let k = choose|k: int|
        0 <= k < s.reported.len() && entry_for(s.sessions, #[trigger] s.reported[k]) == Some(e);
    lemma_first_named(s.sessions, e.session);
}

/// A poll or an update of the sessions leaves the selection where it is as long as
/// that row is still on display, and else puts it on the last row, or on the first
/// of an empty display. So does every event that is no key.
pub proof fn law_selection_stays_where_it_is(s: StateView, event: Event)
    requires
        s.selection_valid(),
        !(event is Key),
    ensures
        ({
            let after = after_event(s, event);
            let rows = after.visible().len();
            &&& s.selected < rows ==> after.selected == s.selected
            &&& 0 < rows <= s.selected ==> after.selected == rows - 1
            &&& rows == 0 ==> after.selected == 0
        }),
{
}

/// A good answer to a poll replaces what was reported, item by item, and touches
/// neither the sessions nor the address of the server.
pub proof fn law_poll_replaces_the_report(s: StateView, list: Vec<ReportedInstance>)
    ensures
        ({
            let event = Event::WebRequestResult { status: 200, instances: Some(list) };
            let after = after_event(s, event);
            &&& after.reported.len() == list@.len()
            &&& forall|i: int| 0 <= i < list@.len() ==> #[trigger] after.reported[i] == list@[i]@
            &&& after.sessions == s.sessions
            &&& after.server_url == s.server_url
            &&& event_draws(event)
            &&& event_commands(s, event).len() == 0
        }),
{
}

/// An update replaces what is known of the sessions, one by one, and touches neither
/// the report nor the address of the server.
pub proof fn law_update_replaces_the_sessions(s: StateView, list: Vec<Session>)
    ensures
        ({
            let event = Event::SessionUpdate { sessions: list };
            let after = after_event(s, event);
            &&& after.sessions.len() == list@.len()
            &&& forall|i: int| 0 <= i < list@.len() ==> #[trigger] after.sessions[i] == list@[i]@
            &&& after.reported == s.reported
            &&& after.server_url == s.server_url
            &&& event_draws(event)
            &&& event_commands(s, event).len() == 0
        }),
{
}

/// The timer and an answer about permissions poll the server at its address; they
/// and all other events change nothing and draw nothing.
pub proof fn law_other_events(s: StateView)
    ensures
        event_commands(s, Event::Timer).len() == 2,
        event_commands(s, Event::Timer)[0] == (CommandView::Get { url: s.server_url + "/state"@ }),
        event_commands(s, Event::Timer)[1] == (CommandView::SetTimeout { secs: 1 }),
        event_commands(s, Event::PermissionRequestResult).len() == 1,
        event_commands(s, Event::PermissionRequestResult)[0] == (CommandView::Get {
            url: s.server_url + "/state"@,
        }),
        event_commands(s, Event::Other).len() == 0,
        after_event(s, Event::Timer) == s,
        after_event(s, Event::PermissionRequestResult) == s,
        after_event(s, Event::Other) == s,
        !event_draws(Event::Timer),
        !event_draws(Event::PermissionRequestResult),
        !event_draws(Event::Other),
{
}

/// Where the keys take the selection: the arrow up and `k` one row up unless it is
/// the first, the arrow down and `j` one row down unless it is the last, all others
/// nowhere. A move is drawn, whether there was room or not, and nothing else is.
pub proof fn law_keys_and_the_selection(s: StateView, key: Key)
    requires
        s.visible().len() <= usize::MAX,
    ensures
        ({
            let up = key == Key::Up || key == Key::Char('k');
            let down = key == Key::Down || key == Key::Char('j');
            let after = after_event(s, Event::Key(key)).selected;
            &&& after_event(s, Event::Key(key)) == after_key(s, key)
            &&& up ==> after == (if s.selected == 0 { 0 } else { s.selected - 1 })
            &&& down ==> after == (if s.selected + 1 < s.visible().len() {
                s.selected + 1
            } else {
                s.selected as int
            })
            &&& !up && !down ==> after == s.selected
            &&& event_draws(Event::Key(key)) <==> up || down
        }),
{
}

/// What the keys ask of Zellij: escape and `q` to close the plugin; nothing any
/// other key but `Enter`.
pub proof fn law_keys_and_commands(s: StateView, key: Key)
    ensures
        event_commands(s, Event::Key(key)) == key_commands(s, key),
        key == Key::Esc || key == Key::Char('q') ==> key_commands(s, key) == seq![
            CommandView::CloseSelf,
        ],
        key != Key::Esc && key != Key::Char('q') && key != Key::Enter ==> key_commands(
            s,
            key,
        ).len() == 0,
{
}

/// The address of the server is the first that the configuration gives, and the
/// usual one only where it gives none.
pub proof fn law_address_as_configured(configuration: Seq<(String, String)>, n: int)
    ensures
        0 <= n < configuration.len() && configuration[n].0@ == "server_url"@ && (forall|m: int|
            0 <= m < n ==> (#[trigger] configuration[m]).0@ != "server_url"@) ==> configured_url(
            configuration,
        ) == configuration[n].1@,
        (forall|m: int|
            0 <= m < configuration.len() ==> (#[trigger] configuration[m]).0@ != "server_url"@)
            ==> configured_url(configuration) == "http://127.0.0.1:47100"@,
    decreases configuration.len(),
{
    if configuration.len() > 0 && configuration[0].0@ != "server_url"@ {
        let rest = configuration.drop_first();
        law_address_as_configured(rest, n - 1);
        assert(configured(configuration, "server_url"@) == configured(rest, "server_url"@));
        if 0 <= n < configuration.len() {
            assert(n > 0 ==> rest[n - 1] == configuration[n]);
            assert forall|m: int|
                0 <= m < n - 1 && (forall|k: int|
                    0 <= k < n ==> (#[trigger] configuration[k]).0@ != "server_url"@) implies (
            #[trigger] rest[m]).0@ != "server_url"@ by {
                assert(rest[m] == configuration[m + 1]);
            }
        }
        if forall|m: int|
            0 <= m < configuration.len() ==> (#[trigger] configuration[m]).0@ != "server_url"@ {
            assert forall|m: int| 0 <= m < rest.len() implies (#[trigger] rest[m]).0@
                != "server_url"@ by {
                assert(rest[m] == configuration[m + 1]);
            }
        }
    } else if configuration.len() > 0 && 0 < n < configuration.len() {
        assert(configuration[0].0@ == "server_url"@);
    }
}

/// When it is loaded the plugin asks for its three permissions, then for its five
/// kinds of events, then for a timer that runs out at once.
pub proof fn law_loading_asks_for_all()
    ensures
        load_commands().len() == 3,
        load_commands()[0] matches CommandView::RequestPermission(p) && {
            &&& p.contains(Permission::ReadApplicationState)
            &&& p.contains(Permission::ChangeApplicationState)
            &&& p.contains(Permission::WebAccess)
            &&& p.len() == 3
        },
        load_commands()[1] matches CommandView::Subscribe(e) && {
            &&& e.contains(EventKind::SessionUpdate)
            &&& e.contains(EventKind::WebRequestResult)
            &&& e.contains(EventKind::Timer)
            &&& e.contains(EventKind::Key)
            &&& e.contains(EventKind::PermissionRequestResult)
            &&& e.len() == 5
        },
        load_commands()[2] == (CommandView::SetTimeout { secs: 0 }),
{
    match (load_commands()[0], load_commands()[1]) {
        (CommandView::RequestPermission(p), CommandView::Subscribe(e)) => {
            assert(p[0] == Permission::ReadApplicationState);
            assert(p[1] == Permission::ChangeApplicationState);
            assert(p[2] == Permission::WebAccess);
            assert(e[0] == EventKind::SessionUpdate);
            assert(e[1] == EventKind::WebRequestResult);
            assert(e[2] == EventKind::Timer);
            assert(e[3] == EventKind::Key);
            assert(e[4] == EventKind::PermissionRequestResult);
        },
        _ => {},
    }
}

/// What is reported, as values, holds every field of every item.
pub proof fn law_reported_view(r: ReportedInstance, v: Seq<ReportedInstance>)
    ensures
        r@.zellij_session == r.zellij_session@,
        r@.zellij_pane == r.zellij_pane,
        r@.status == r.status@,
        r@.cwd == r.cwd@,
        reported_views(v).len() == v.len(),
        forall|i: int| 0 <= i < v.len() ==> #[trigger] reported_views(v)[i] == v[i]@,
{
}

/// The sessions, as values, hold every tab and every pane.
pub proof fn law_session_view(s: Session, t: Tab, v: Seq<Session>)
    ensures
        s@.name == s.name@,
        s@.is_current == s.is_current,
        s@.tabs.len() == s.tabs@.len(),
        forall|i: int| 0 <= i < s.tabs@.len() ==> #[trigger] s@.tabs[i] == s.tabs@[i]@,
        t@.position == t.position,
        t@.panes == t.panes@,
        session_views(v).len() == v.len(),
        forall|i: int| 0 <= i < v.len() ==> #[trigger] session_views(v)[i] == v[i]@,
{
}

/// What is on display, as values, holds every field of every row.
pub proof fn law_visible_view(e: VisibleEntry, v: Seq<VisibleEntry>)
    ensures
        e@.session == e.session@,
        e@.pane_id == e.pane_id,
        e@.status == e.status@,
        e@.cwd == e.cwd@,
        e@.tab == e.tab,
        e@.is_current_session == e.is_current_session,
        visible_views(v).len() == v.len(),
        forall|i: int| 0 <= i < v.len() ==> #[trigger] visible_views(v)[i] == v[i]@,
{
}

/// A command as a value is that command with what it carries.
pub proof fn law_command_view(c: Command, v: Seq<Command>)
    ensures
        c matches Command::RequestPermission(p) ==> c@ == CommandView::RequestPermission(p@),
        c matches Command::Subscribe(e) ==> c@ == CommandView::Subscribe(e@),
        c matches Command::SetTimeout { secs } ==> c@ == (CommandView::SetTimeout { secs }),
        c matches Command::Get { url } ==> c@ == (CommandView::Get { url: url@ }),
        c matches Command::FocusTerminalPane { pane_id } ==> c@
            == (CommandView::FocusTerminalPane { pane_id }),
        c matches Command::SwitchSession { session, tab, pane_id } ==> c@
            == (CommandView::SwitchSession { session: session@, tab, pane_id }),
        c is CloseSelf ==> c@ is CloseSelf,
        command_views(v).len() == v.len(),
        forall|i: int| 0 <= i < v.len() ==> #[trigger] command_views(v)[i] == v[i]@,
{
}

/// On display is what the last report and the last update of the sessions make,
/// whatever is selected and wherever the server is.
pub proof fn law_display_of_a_state(s: StateView)
    ensures
        s.visible() == visible_entries(s.reported, s.sessions),
        s.selection_valid() <==> s.selected == 0 || s.selected < s.visible().len(),
{
}

} // verus!
