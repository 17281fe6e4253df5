//! The plugin's state: what it polled, what Zellij told it, what is selected.

use crate::plugin::paint::{color_range, dim_all, new_text, painted, plain, styled, Painted};
use crate::plugin::paint::{DIM, HIGHLIGHT};
use crate::plugin::panes::{
    reported_views, session_views, visible, visible_entries, visible_views, ReportedInstance,
    ReportedView, Session, SessionView, VisibleEntry, VisibleView,
};
use crate::plugin::row::{row_text, row_view};
use crate::text::same_text;
use vstd::prelude::*;
use vstd::string::*;
use zellij_tile::ui_components::Text;

verus! {

/// Where the server is, unless the configuration says otherwise.
pub open spec fn default_server_url() -> Seq<char> {
    "http://127.0.0.1:47100"@
}

/// Seconds from one poll to the next.
pub const POLL_INTERVAL_SECS: u32 = 1;

/// A permission that the plugin asks for.
#[derive(Clone, Copy, Debug, PartialEq, Eq, Structural)]
pub enum Permission {
    ReadApplicationState,
    ChangeApplicationState,
    WebAccess,
}

/// An event that the plugin subscribes to.
#[derive(Clone, Copy, Debug, PartialEq, Eq, Structural)]
pub enum EventKind {
    SessionUpdate,
    WebRequestResult,
    Timer,
    Key,
    PermissionRequestResult,
}

/// What the plugin asks of Zellij.
#[derive(Debug)]
pub enum Command {
    RequestPermission(Vec<Permission>),
    Subscribe(Vec<EventKind>),
    /// Have a timer event after some seconds.
    SetTimeout { secs: u32 },
    /// Fetch a URL.
    Get { url: String },
    /// Focus a terminal pane of the current session.
    FocusTerminalPane { pane_id: u32 },
    /// Switch to a session, its tab where it is known, and its pane.
    SwitchSession { session: String, tab: Option<usize>, pane_id: u32 },
    /// Close the plugin.
    CloseSelf,
}

/// What the plugin asks of Zellij, as mathematical values.
#[verifier::ext_equal]
pub enum CommandView {
    RequestPermission(Seq<Permission>),
    Subscribe(Seq<EventKind>),
    SetTimeout { secs: u32 },
    Get { url: Seq<char> },
    FocusTerminalPane { pane_id: u32 },
    SwitchSession { session: Seq<char>, tab: Option<usize>, pane_id: u32 },
    CloseSelf,
}

impl View for Command {
    type V = CommandView;

    open spec fn view(&self) -> CommandView {
        match self {
            Command::RequestPermission(p) => CommandView::RequestPermission(p@),
            Command::Subscribe(e) => CommandView::Subscribe(e@),
            Command::SetTimeout { secs } => CommandView::SetTimeout { secs: *secs },
            Command::Get { url } => CommandView::Get { url: url@ },
            Command::FocusTerminalPane { pane_id } => CommandView::FocusTerminalPane {
                pane_id: *pane_id,
            },
            Command::SwitchSession { session, tab, pane_id } => CommandView::SwitchSession {
                session: session@,
                tab: *tab,
                pane_id: *pane_id,
            },
            Command::CloseSelf => CommandView::CloseSelf,
        }
    }
}

/// The values of a row of commands.
pub open spec fn command_views(v: Seq<Command>) -> Seq<CommandView> {
    Seq::new(v.len(), |i: int| v[i]@)
}

/// A key that the user pressed.
#[derive(Clone, Copy, Debug, PartialEq, Eq, Structural)]
pub enum Key {
    Up,
    Down,
    Enter,
    Esc,
    Char(char),
    Other,
}

/// What Zellij tells the plugin.
#[derive(Debug)]
pub enum Event {
    /// The timer ran out.
    Timer,
    /// A request was answered, with an HTTP status and with the sessions that the
    /// body holds, if it holds any list of them.
    WebRequestResult { status: u16, instances: Option<Vec<ReportedInstance>> },
    /// The panes of all live sessions.
    SessionUpdate { sessions: Vec<Session> },
    /// The user answered the request for permissions.
    PermissionRequestResult,
    /// A key was pressed.
    Key(Key),
    /// Anything else.
    Other,
}

/// The plugin's state.
#[derive(Debug)]
pub struct State {
    server_url: String,
    reported: Vec<ReportedInstance>,
    sessions: Vec<Session>,
    selected: usize,
}

/// The plugin's state, as mathematical values.
#[verifier::ext_equal]
pub struct StateView {
    pub server_url: Seq<char>,
    pub reported: Seq<ReportedView>,
    pub sessions: Seq<SessionView>,
    pub selected: usize,
}

impl StateView {
    /// The sessions on display.
    pub open spec fn visible(self) -> Seq<VisibleView> {
        visible_entries(self.reported, self.sessions)
    }

    /// The selection is one of the sessions on display, or the first row of an
    /// empty display.
    pub open spec fn selection_valid(self) -> bool {
        self.selected == 0 || self.selected < self.visible().len()
    }

    /// The state with the selection pulled back onto the display.
    pub open spec fn clamped(self) -> StateView {
        let len = self.visible().len();
        StateView {
            selected: if len == 0 {
                0
            } else if self.selected >= len {
                (len - 1) as usize
            } else {
                self.selected
            },
            ..self
        }
    }
}

impl View for State {
    type V = StateView;

    closed spec fn view(&self) -> StateView {
        StateView {
            server_url: self.server_url@,
            reported: reported_views(self.reported@),
            sessions: session_views(self.sessions@),
            selected: self.selected,
        }
    }
}

impl Default for State {
    /// A plugin that knows nothing yet.
    fn default() -> (s: State)
        ensures
            s@ == (StateView {
                server_url: Seq::empty(),
                reported: Seq::empty(),
                sessions: Seq::empty(),
                selected: 0,
            }),
            s.wf(),
    {
        let s: State = State {
            server_url: String::new(),
            reported: Vec::new(),
            sessions: Vec::new(),
            selected: 0,
        };
        assert(s@.reported =~= Seq::empty());
        assert(s@.sessions =~= Seq::empty());
        s
    }
}

/// The text of an optional configuration entry: the first of its name.
pub open spec fn configured(configuration: Seq<(String, String)>, name: Seq<char>) -> Option<
    Seq<char>,
>
    decreases configuration.len(),
{
    if configuration.len() == 0 {
        None
    } else if configuration[0].0@ == name {
        Some(configuration[0].1@)
    } else {
        configured(configuration.drop_first(), name)
    }
}

/// The server's address as configured, else the default.
pub open spec fn configured_url(configuration: Seq<(String, String)>) -> Seq<char> {
    match configured(configuration, "server_url"@) {
        Some(url) => url,
        None => default_server_url(),
    }
}

/// What the plugin asks of Zellij when it is loaded: permissions, events, and a
/// timer that runs out at once, for the first poll.
pub open spec fn load_commands() -> Seq<CommandView> {
    seq![
        CommandView::RequestPermission(
            seq![
                Permission::ReadApplicationState,
                Permission::ChangeApplicationState,
                Permission::WebAccess,
            ],
        ),
        CommandView::Subscribe(
            seq![
                EventKind::SessionUpdate,
                EventKind::WebRequestResult,
                EventKind::Timer,
                EventKind::Key,
                EventKind::PermissionRequestResult,
            ],
        ),
        CommandView::SetTimeout { secs: 0 },
    ]
}

/// The request of a poll.
pub open spec fn poll_command(s: StateView) -> CommandView {
    CommandView::Get { url: s.server_url + "/state"@ }
}

/// The jump to a session on display.
pub open spec fn jump_command(entry: VisibleView) -> CommandView {
    if entry.is_current_session {
        CommandView::FocusTerminalPane { pane_id: entry.pane_id }
    } else {
        CommandView::SwitchSession {
            session: entry.session,
            tab: entry.tab,
            pane_id: entry.pane_id,
        }
    }
}

/// What `Enter` asks of Zellij: the jump to the selected session, then to close
/// the plugin. Nothing where nothing is on display.
pub open spec fn activate_commands(s: StateView) -> Seq<CommandView> {
    if s.selected < s.visible().len() {
        seq![jump_command(s.visible()[s.selected as int]), CommandView::CloseSelf]
    } else {
        Seq::empty()
    }
}

/// Whether a key moves the selection up.
pub open spec fn is_up(key: Key) -> bool {
    key == Key::Up || key == Key::Char('k')
}

/// Whether a key moves the selection down.
pub open spec fn is_down(key: Key) -> bool {
    key == Key::Down || key == Key::Char('j')
}

/// Whether a key closes the plugin.
pub open spec fn is_close(key: Key) -> bool {
    key == Key::Esc || key == Key::Char('q')
}

/// The state after a key.
pub open spec fn after_key(s: StateView, key: Key) -> StateView {
    if is_up(key) && s.selected > 0 {
        StateView { selected: (s.selected - 1) as usize, ..s }
    } else if is_down(key) && s.selected + 1 < s.visible().len() {
        StateView { selected: (s.selected + 1) as usize, ..s }
    } else {
        s
    }
}

/// What a key asks of Zellij.
pub open spec fn key_commands(s: StateView, key: Key) -> Seq<CommandView> {
    if key == Key::Enter {
        activate_commands(s)
    } else if is_close(key) {
        seq![CommandView::CloseSelf]
    } else {
        Seq::empty()
    }
}

/// The state after an event.
pub open spec fn after_event(s: StateView, event: Event) -> StateView {
    match event {
        Event::WebRequestResult { status, instances } => if status == 200 && instances is Some {
            StateView { reported: reported_views(instances->0@), ..s }.clamped()
        } else {
            s
        },
        Event::SessionUpdate { sessions } => StateView {
            sessions: session_views(sessions@),
            ..s
        }.clamped(),
        Event::Key(key) => after_key(s, key),
        _ => s,
    }
}

/// What an event makes the plugin ask of Zellij.
pub open spec fn event_commands(s: StateView, event: Event) -> Seq<CommandView> {
    match event {
        Event::Timer => seq![
            poll_command(s),
            CommandView::SetTimeout { secs: POLL_INTERVAL_SECS },
        ],
        Event::PermissionRequestResult => seq![poll_command(s)],
        Event::Key(key) => key_commands(s, key),
        _ => Seq::empty(),
    }
}

/// Whether an event calls for a new drawing.
pub open spec fn event_draws(event: Event) -> bool {
    match event {
        Event::WebRequestResult { status, instances } => status == 200 && instances is Some,
        Event::SessionUpdate { .. } => true,
        Event::Key(key) => is_up(key) || is_down(key),
        _ => false,
    }
}

/// A styled text and where it goes.
#[derive(Debug)]
pub struct Drawing {
    pub text: Text,
    pub x: usize,
    pub y: usize,
    pub width: Option<usize>,
    pub height: Option<usize>,
}

/// A styled text and where it goes, as mathematical values.
#[verifier::ext_equal]
pub struct DrawingView {
    pub text: Painted,
    pub x: usize,
    pub y: usize,
    pub width: Option<usize>,
    pub height: Option<usize>,
}

impl View for Drawing {
    type V = DrawingView;

    open spec fn view(&self) -> DrawingView {
        DrawingView {
            text: painted(self.text),
            x: self.x,
            y: self.y,
            width: self.width,
            height: self.height,
        }
    }
}

/// The values of a row of drawings.
pub open spec fn drawing_views(v: Seq<Drawing>) -> Seq<DrawingView> {
    Seq::new(v.len(), |i: int| v[i]@)
}

/// A text at the left edge of a row, as wide as the plugin.
pub open spec fn drawn_at(text: Painted, y: int, cols: usize) -> DrawingView {
    DrawingView { text, x: 0, y: y as usize, width: Some(cols), height: None }
}

/// A text with one style throughout.
pub open spec fn all_styled(content: Seq<char>, level: usize) -> Painted {
    styled(plain(content), level, 0, content.len() as usize)
}

/// What the plugin draws: the title, then a row for each session on display, then a
/// hint; or the title and a line that says there is nothing.
pub open spec fn render_view(s: StateView, title: Seq<char>, cols: usize) -> Seq<DrawingView> {
    let shown = s.visible();
    let head = drawn_at(all_styled(title, HIGHLIGHT), 0, cols);
    if shown.len() == 0 {
        seq![head, drawn_at(all_styled("(no active instances)"@, DIM), 2, cols)]
    } else {
        seq![head] + Seq::new(
            shown.len(),
            |i: int| drawn_at(row_view(shown[i], i == s.selected), i + 2, cols),
        ) + seq![
            drawn_at(
                all_styled("↑/↓ select   ⏎ jump   q/esc close"@, DIM),
                shown.len() as int + 3,
                cols,
            ),
        ]
    }
}

impl State {
    /// The selection is valid.
    pub open spec fn wf(&self) -> bool {
        self@.selection_valid()
    }

    /// How many sessions the server reported.
    pub fn reported_len(&self) -> (n: usize)
        ensures
            n == self@.reported.len(),
    {
        self.reported.len()
    }

    /// The row that is selected.
    pub fn selected(&self) -> (n: usize)
        ensures
            n == self@.selected,
    {
        self.selected
    }

    /// Takes the plugin's configuration.
    pub fn load(&mut self, configuration: &Vec<(String, String)>) -> (commands: Vec<Command>)
        ensures
            final(self)@ == (StateView {
                server_url: configured_url(configuration@),
                ..old(self)@
            }),
            command_views(commands@) == load_commands(),
    {
        let mut url: String = "http://127.0.0.1:47100".to_owned();
        let ghost all = configuration@;
        let mut i: usize = 0;
        let mut found: bool = false;
        assert(all.skip(0) =~= all);
        while i < configuration.len() && !found
            invariant
                all == configuration@,
                i <= all.len(),
                !found ==> url@ == default_server_url() && configured(all, "server_url"@)
                    == configured(all.skip(i as int), "server_url"@),
                found ==> configured(all, "server_url"@) == Some(url@),
            decreases all.len() - i,
        {
            assert(all.skip(i as int)[0] == all[i as int]);
            assert(all.skip(i as int).drop_first() =~= all.skip(i + 1));
            if same_text(configuration[i].0.as_str(), "server_url") {
                url = configuration[i].1.clone();
                found = true;
            }
            i = i + 1;
        }
        self.server_url = url;
        let mut permissions: Vec<Permission> = Vec::new();
        permissions.push(Permission::ReadApplicationState);
        permissions.push(Permission::ChangeApplicationState);
        permissions.push(Permission::WebAccess);
        let mut events: Vec<EventKind> = Vec::new();
        events.push(EventKind::SessionUpdate);
        events.push(EventKind::WebRequestResult);
        events.push(EventKind::Timer);
        events.push(EventKind::Key);
        events.push(EventKind::PermissionRequestResult);
        let mut commands: Vec<Command> = Vec::new();
        assert(permissions@ =~= load_commands()[0]->RequestPermission_0);
        assert(events@ =~= load_commands()[1]->Subscribe_0);
        commands.push(Command::RequestPermission(permissions));
        commands.push(Command::Subscribe(events));
        commands.push(Command::SetTimeout { secs: 0 });
        assert(command_views(commands@) =~= load_commands());
        commands
    }

    /// The request that polls the server.
    pub fn poll(&self) -> (command: Command)
        ensures
            command@ == poll_command(self@),
    {
        let mut url: String = self.server_url.clone();
        url.append("/state");
        Command::Get { url }
    }

    /// The sessions on display.
    pub fn visible(&self) -> (entries: Vec<VisibleEntry>)
        ensures
            visible_views(entries@) == self@.visible(),
            entries@.len() <= self@.reported.len(),
    {
        visible(&self.reported, &self.sessions)
    }

    /// Pulls the selection back onto the display.
    fn clamp_selection(&mut self)
        ensures
            final(self)@ == old(self)@.clamped(),
            final(self).wf(),
    {
        let len: usize = self.visible().len();
        assert(len == self@.visible().len());
        if len == 0 {
            self.selected = 0;
        } else if self.selected >= len {
            self.selected = len - 1;
        }
    }

    /// Takes an event. The result says whether to draw anew, and what to ask of
    /// Zellij.
    pub fn update(&mut self, event: Event) -> (response: (bool, Vec<Command>))
        requires
            old(self).wf(),
        ensures
            final(self).wf(),
            final(self)@ == after_event(old(self)@, event),
            response.0 == event_draws(event),
            command_views(response.1@) == event_commands(old(self)@, event),
    {
        let mut commands: Vec<Command> = Vec::new();
        assert(command_views(commands@) =~= Seq::empty());
        match event {
            Event::Timer => {
                commands.push(self.poll());
                commands.push(Command::SetTimeout { secs: POLL_INTERVAL_SECS });
                assert(command_views(commands@) =~= event_commands(old(self)@, event));
                (false, commands)
            },
            Event::WebRequestResult { status, instances } => {
                if status == 200 {
                    if let Some(list) = instances {
                        self.reported = list;
                        self.clamp_selection();
                        return (true, commands);
                    }
                }
                (false, commands)
            },
            Event::SessionUpdate { sessions } => {
                self.sessions = sessions;
                self.clamp_selection();
                (true, commands)
            },
            Event::PermissionRequestResult => {
                commands.push(self.poll());
                assert(command_views(commands@) =~= event_commands(old(self)@, event));
                (false, commands)
            },
            Event::Key(key) => self.handle_key(key),
            Event::Other => (false, commands),
        }
    }

    /// Takes a key. The result says whether to draw anew, and what to ask of
    /// Zellij.
    pub fn handle_key(&mut self, key: Key) -> (response: (bool, Vec<Command>))
        requires
            old(self).wf(),
        ensures
            final(self).wf(),
            final(self)@ == after_key(old(self)@, key),
            response.0 == (is_up(key) || is_down(key)),
            command_views(response.1@) == key_commands(old(self)@, key),
    {
        let len: usize = self.visible().len();
        assert(len == self@.visible().len());
        let mut commands: Vec<Command> = Vec::new();
        assert(command_views(commands@) =~= Seq::empty());
        match key {
            Key::Up | Key::Char('k') => {
                if self.selected > 0 {
                    self.selected = self.selected - 1;
                }
                (true, commands)
            },
            Key::Down | Key::Char('j') => {
                if len > 0 && self.selected + 1 < len {
                    self.selected = self.selected + 1;
                }
                (true, commands)
            },
            Key::Enter => (false, self.activate()),
            Key::Esc | Key::Char('q') => {
                commands.push(Command::CloseSelf);
                assert(command_views(commands@) =~= key_commands(old(self)@, key));
                (false, commands)
            },
            _ => (false, commands),
        }
    }

    /// The jump to the selected session.
    pub fn activate(&self) -> (commands: Vec<Command>)
        ensures
            command_views(commands@) == activate_commands(self@),
    {
        let entries: Vec<VisibleEntry> = self.visible();
        assert(entries@.len() == self@.visible().len());
        let mut commands: Vec<Command> = Vec::new();
        if self.selected >= entries.len() {
            assert(command_views(commands@) =~= Seq::empty());
            return commands;
        }
        let entry: &VisibleEntry = &entries[self.selected];
        assert(entry@ == self@.visible()[self.selected as int]);
        if entry.is_current_session {
            commands.push(Command::FocusTerminalPane { pane_id: entry.pane_id });
        } else {
            commands.push(
                Command::SwitchSession {
                    session: entry.session.clone(),
                    tab: entry.tab,
                    pane_id: entry.pane_id,
                },
            );
        }
        commands.push(Command::CloseSelf);
        assert(command_views(commands@) =~= activate_commands(self@));
        commands
    }

    /// What to draw under a title in a plugin that is `cols` columns wide.
    pub fn render(&self, title: &str, cols: usize) -> (drawings: Vec<Drawing>)
        requires
            self@.reported.len() + 3 <= usize::MAX,
        ensures
            drawing_views(drawings@) == render_view(self@, title@, cols),
    {
        let entries: Vec<VisibleEntry> = self.visible();
        let ghost shown = self@.visible();
        assert(entries@.len() == shown.len());
        let width: Option<usize> = Some(cols);
        let mut drawings: Vec<Drawing> = Vec::new();
        drawings.push(
            Drawing {
                text: color_range(new_text(title), HIGHLIGHT, 0, title.unicode_len()),
                x: 0,
                y: 0,
                width,
                height: None,
            },
        );
        if entries.len() == 0 {
            let text: Text = dim_all(new_text("(no active instances)"));
            drawings.push(Drawing { text, x: 0, y: 2, width, height: None });
            assert(drawing_views(drawings@) =~= render_view(self@, title@, cols));
            return drawings;
        }
        let ghost head = seq![drawn_at(all_styled(title@, HIGHLIGHT), 0, cols)];
        let ghost rows = Seq::new(
            shown.len(),
            |i: int| drawn_at(row_view(shown[i], i == self@.selected), i + 2, cols),
        );
        let mut i: usize = 0;
        assert(drawing_views(drawings@) =~= head + rows.take(0));
        while i < entries.len()
            invariant
                shown == self@.visible(),
                visible_views(entries@) == shown,
                entries@.len() + 3 <= usize::MAX,
                i <= entries@.len(),
                width == Some(cols),
                rows == Seq::new(
                    shown.len(),
                    |i: int| drawn_at(row_view(shown[i], i == self@.selected), i + 2, cols),
                ),
                drawing_views(drawings@) == head + rows.take(i as int),
            decreases entries@.len() - i,
        {
            let ghost before = drawing_views(drawings@);
            assert(shown[i as int] == entries@[i as int]@);
            let text: Text = row_text(&entries[i], i == self.selected);
            drawings.push(Drawing { text, x: 0, y: i + 2, width, height: None });
            assert(drawing_views(drawings@) =~= before.push(rows[i as int]));
            assert(drawing_views(drawings@) =~= head + rows.take(i + 1));
            i = i + 1;
        }
        assert(rows.take(i as int) =~= rows);
        let hint: Text = dim_all(new_text("↑/↓ select   ⏎ jump   q/esc close"));
        let ghost before = drawing_views(drawings@);
        drawings.push(Drawing { text: hint, x: 0, y: entries.len() + 3, width, height: None });
        assert(drawing_views(drawings@) =~= before.push(
            drawn_at(
                all_styled("↑/↓ select   ⏎ jump   q/esc close"@, DIM),
                shown.len() as int + 3,
                cols,
            ),
        ));
        assert(drawing_views(drawings@) =~= render_view(self@, title@, cols));
        drawings
    }
}

} // verus!
