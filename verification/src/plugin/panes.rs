//! The panes of Zellij's sessions, and which of the reported sessions to show.

use crate::text::same_text;
use vstd::prelude::*;

verus! {

/// A session as the server reports it.
#[derive(Debug)]
pub struct ReportedInstance {
    /// Zellij session, empty outside Zellij.
    pub zellij_session: String,
    /// Zellij pane, `None` outside Zellij.
    pub zellij_pane: Option<u32>,
    pub status: String,
    pub cwd: String,
}

/// A session as the server reports it, as mathematical values.
#[verifier::ext_equal]
pub struct ReportedView {
    pub zellij_session: Seq<char>,
    pub zellij_pane: Option<u32>,
    pub status: Seq<char>,
    pub cwd: Seq<char>,
}

impl View for ReportedInstance {
    type V = ReportedView;

    open spec fn view(&self) -> ReportedView {
        ReportedView {
            zellij_session: self.zellij_session@,
            zellij_pane: self.zellij_pane,
            status: self.status@,
            cwd: self.cwd@,
        }
    }
}

/// The values of a row of reported sessions.
pub open spec fn reported_views(v: Seq<ReportedInstance>) -> Seq<ReportedView> {
    Seq::new(v.len(), |i: int| v[i]@)
}

/// A pane of a tab.
#[derive(Clone, Copy, Debug)]
pub struct Pane {
    pub id: u32,
    pub is_plugin: bool,
}

/// The panes of a tab.
#[derive(Debug)]
pub struct Tab {
    pub position: usize,
    pub panes: Vec<Pane>,
}

/// The panes of a tab, as mathematical values.
#[verifier::ext_equal]
pub struct TabView {
    pub position: usize,
    pub panes: Seq<Pane>,
}

impl View for Tab {
    type V = TabView;

    open spec fn view(&self) -> TabView {
        TabView { position: self.position, panes: self.panes@ }
    }
}

/// A live Zellij session.
#[derive(Debug)]
pub struct Session {
    pub name: String,
    /// The tabs, in no particular order.
    pub tabs: Vec<Tab>,
    /// Whether it is the session that the plugin runs in.
    pub is_current: bool,
}

/// A live Zellij session, as mathematical values.
#[verifier::ext_equal]
pub struct SessionView {
    pub name: Seq<char>,
    pub tabs: Seq<TabView>,
    pub is_current: bool,
}

impl View for Session {
    type V = SessionView;

    open spec fn view(&self) -> SessionView {
        SessionView {
            name: self.name@,
            tabs: Seq::new(self.tabs@.len(), |i: int| self.tabs@[i]@),
            is_current: self.is_current,
        }
    }
}

/// The values of a row of Zellij sessions.
pub open spec fn session_views(v: Seq<Session>) -> Seq<SessionView> {
    Seq::new(v.len(), |i: int| v[i]@)
}

/// Where the pane of a reported session is.
#[derive(Clone, Copy, Debug, PartialEq, Eq, Structural)]
pub enum PaneLookup {
    /// The Zellij session is known and the pane is live.
    Alive { tab: usize, is_current: bool },
    /// The Zellij session is known but the pane is gone.
    Dead,
    /// Nothing is known of the Zellij session yet.
    UnknownSession,
}

/// Whether a tab holds a terminal pane.
pub open spec fn has_terminal(panes: Seq<Pane>, pane_id: u32) -> bool {
    exists|i: int|
        0 <= i < panes.len() && (#[trigger] panes[i]).id == pane_id && !panes[i].is_plugin
}

/// The position of the first tab that holds a terminal pane.
pub open spec fn tab_of(tabs: Seq<TabView>, pane_id: u32) -> Option<usize>
    decreases tabs.len(),
{
    if tabs.len() == 0 {
        None
    } else if has_terminal(tabs[0].panes, pane_id) {
        Some(tabs[0].position)
    } else {
        tab_of(tabs.drop_first(), pane_id)
    }
}

/// The first session of a name.
pub open spec fn session_named(sessions: Seq<SessionView>, name: Seq<char>) -> Option<SessionView>
    decreases sessions.len(),
{
    if sessions.len() == 0 {
        None
    } else if sessions[0].name == name {
        Some(sessions[0])
    } else {
        session_named(sessions.drop_first(), name)
    }
}

/// Where a terminal pane is, by session name and pane id.
pub open spec fn lookup(sessions: Seq<SessionView>, name: Seq<char>, pane_id: u32) -> PaneLookup {
    match session_named(sessions, name) {
        Some(session) => match tab_of(session.tabs, pane_id) {
            Some(tab) => PaneLookup::Alive { tab, is_current: session.is_current },
            None => PaneLookup::Dead,
        },
        None => PaneLookup::UnknownSession,
    }
}

fn holds_terminal(panes: &Vec<Pane>, pane_id: u32) -> (b: bool)
    ensures
        b == has_terminal(panes@, pane_id),
{
    let mut i: usize = 0;
    while i < panes.len()
        invariant
            i <= panes@.len(),
            forall|j: int|
                0 <= j < i ==> !((#[trigger] panes@[j]).id == pane_id && !panes@[j].is_plugin),
        decreases panes@.len() - i,
    {
        if panes[i].id == pane_id && !panes[i].is_plugin {
            return true;
        }
        i = i + 1;
    }
    false
}

fn find_tab(session: &Session, pane_id: u32) -> (tab: Option<usize>)
    ensures
        tab == tab_of(session@.tabs, pane_id),
{
    let ghost all = session@.tabs;
    let mut i: usize = 0;
    assert(all.skip(0) =~= all);
    while i < session.tabs.len()
        invariant
            all == session@.tabs,
            i <= session.tabs@.len(),
            tab_of(all, pane_id) == tab_of(all.skip(i as int), pane_id),
        decreases session.tabs@.len() - i,
    {
        assert(all.skip(i as int)[0] == session.tabs@[i as int]@);
        assert(all.skip(i as int).drop_first() =~= all.skip(i + 1));
        if holds_terminal(&session.tabs[i].panes, pane_id) {
            return Some(session.tabs[i].position);
        }
        i = i + 1;
    }
    None
}

/// Locates a terminal pane by session name and pane id.
pub fn locate_pane(sessions: &Vec<Session>, session: &str, pane_id: u32) -> (found: PaneLookup)
    ensures
        found == lookup(session_views(sessions@), session@, pane_id),
{
    let ghost all = session_views(sessions@);
    let mut i: usize = 0;
    assert(all.skip(0) =~= all);
    while i < sessions.len()
        invariant
            all == session_views(sessions@),
            i <= sessions@.len(),
            session_named(all, session@) == session_named(all.skip(i as int), session@),
        decreases sessions@.len() - i,
    {
        assert(all.skip(i as int)[0] == sessions@[i as int]@);
        assert(all.skip(i as int).drop_first() =~= all.skip(i + 1));
        if same_text(sessions[i].name.as_str(), session) {
            return match find_tab(&sessions[i], pane_id) {
                Some(tab) => PaneLookup::Alive { tab, is_current: sessions[i].is_current },
                None => PaneLookup::Dead,
            };
        }
        i = i + 1;
    }
    PaneLookup::UnknownSession
}

/// A session to show.
#[derive(Debug)]
pub struct VisibleEntry {
    pub session: String,
    pub pane_id: u32,
    pub status: String,
    pub cwd: String,
    /// Position of the pane's tab, where it is known.
    pub tab: Option<usize>,
    /// Whether the pane is in the session that the plugin runs in.
    pub is_current_session: bool,
}

/// A session to show, as mathematical values.
#[verifier::ext_equal]
pub struct VisibleView {
    pub session: Seq<char>,
    pub pane_id: u32,
    pub status: Seq<char>,
    pub cwd: Seq<char>,
    pub tab: Option<usize>,
    pub is_current_session: bool,
}

impl View for VisibleEntry {
    type V = VisibleView;

    open spec fn view(&self) -> VisibleView {
        VisibleView {
            session: self.session@,
            pane_id: self.pane_id,
            status: self.status@,
            cwd: self.cwd@,
            tab: self.tab,
            is_current_session: self.is_current_session,
        }
    }
}

/// The values of a row of sessions to show.
pub open spec fn visible_views(v: Seq<VisibleEntry>) -> Seq<VisibleView> {
    Seq::new(v.len(), |i: int| v[i]@)
}

/// How a reported session is shown; `None` if it is not. Shown is what has a
/// Zellij location, unless its pane is known to be gone.
pub open spec fn entry_for(sessions: Seq<SessionView>, inst: ReportedView) -> Option<VisibleView> {
    if inst.zellij_session.len() == 0 || inst.zellij_pane is None {
        None
    } else {
        let (shown, tab, is_current_session) = match lookup(
            sessions,
            inst.zellij_session,
            inst.zellij_pane->0,
        ) {
            PaneLookup::Alive { tab, is_current } => (true, Some(tab), is_current),
            PaneLookup::UnknownSession => (true, None, false),
            PaneLookup::Dead => (false, None, false),
        };
        if shown {
            Some(
                VisibleView {
                    session: inst.zellij_session,
                    pane_id: inst.zellij_pane->0,
                    status: inst.status,
                    cwd: inst.cwd,
                    tab,
                    is_current_session,
                },
            )
        } else {
            None
        }
    }
}

/// The sessions to show, in the order of the report.
pub open spec fn visible_entries(
    reported: Seq<ReportedView>,
    sessions: Seq<SessionView>,
) -> Seq<VisibleView>
    decreases reported.len(),
{
    if reported.len() == 0 {
        Seq::empty()
    } else {
        let earlier = visible_entries(reported.drop_last(), sessions);
        match entry_for(sessions, reported.last()) {
            Some(entry) => earlier.push(entry),
            None => earlier,
        }
    }
}

fn show(sessions: &Vec<Session>, inst: &ReportedInstance) -> (entry: Option<VisibleEntry>)
    ensures
        match entry {
            Some(e) => entry_for(session_views(sessions@), inst@) == Some(e@),
            None => entry_for(session_views(sessions@), inst@) is None,
        },
{
    if inst.zellij_session.as_str().is_empty() {
        return None;
    }
    let pane_id: u32 = match inst.zellij_pane {
        Some(id) => id,
        None => return None,
    };
    let (tab, is_current_session): (Option<usize>, bool) = match locate_pane(
        sessions,
        inst.zellij_session.as_str(),
        pane_id,
    ) {
        PaneLookup::Alive { tab, is_current } => (Some(tab), is_current),
        PaneLookup::UnknownSession => (None, false),
        PaneLookup::Dead => return None,
    };
    let entry: VisibleEntry = VisibleEntry {
        session: inst.zellij_session.clone(),
        pane_id,
        status: inst.status.clone(),
        cwd: inst.cwd.clone(),
        tab,
        is_current_session,
    };
    Some(entry)
}

/// The sessions to show. One whose pane is known to be gone is dropped; one whose
/// Zellij session is not known yet is shown all the same.
pub fn visible(reported: &Vec<ReportedInstance>, sessions: &Vec<Session>) -> (entries: Vec<
    VisibleEntry,
>)
    ensures
        visible_views(entries@) == visible_entries(
            reported_views(reported@),
            session_views(sessions@),
        ),
        entries@.len() <= reported@.len(),
{
    let ghost all = reported_views(reported@);
    let mut entries: Vec<VisibleEntry> = Vec::new();
    let mut i: usize = 0;
    assert(visible_views(entries@) =~= Seq::empty());
    while i < reported.len()
        invariant
            all == reported_views(reported@),
            i <= reported@.len(),
            entries@.len() <= i,
            visible_views(entries@) == visible_entries(
                all.take(i as int),
                session_views(sessions@),
            ),
        decreases reported@.len() - i,
    {
        let ghost before = visible_views(entries@);
        assert(all.take(i + 1).drop_last() =~= all.take(i as int));
        assert(all.take(i + 1).last() == reported@[i as int]@);
        match show(sessions, &reported[i]) {
            Some(entry) => {
                entries.push(entry);
                assert(visible_views(entries@) =~= before.push(entry@));
            },
            None => {},
        }
        i = i + 1;
    }
    assert(all.take(i as int) =~= all);
    entries
}

} // verus!
