//! The server: takes hook reports, answers with the tracked sessions.

use crate::clock::{hms_millis, hms_text, now_millis, reading_at, reading_millis};
use crate::config::optional_text;
use crate::event::{action_for, event_action, Action, Status};
use crate::headers::{header_str, header_text, header_values};
use crate::json::{
    body_members, empty_object, field_text, is_object, no_members, object_members, parse_body,
    str_field,
};
use crate::registry::{is_listing, listing_of, Instance, InstanceView, Registry};
use crate::text::{
    bounded_decimal, decimal_text, padded, parse_u32, push_decimal, push_padded, same_text,
};
use axum::http::HeaderMap;
use serde_json::Value;
use std::time::SystemTime;
use vstd::prelude::*;
use vstd::string::*;

verus! {

/// What a hook reports.
#[derive(Debug)]
pub struct Report {
    pub event: String,
    pub session_id: String,
    pub cwd: String,
    pub tool_name: String,
    pub model: String,
    pub title: String,
    pub permission_mode: String,
    pub transcript_path: String,
    pub agent_type: String,
    pub zellij_session: String,
    pub zellij_pane: Option<u32>,
}

/// What a hook reports, as mathematical values.
#[verifier::ext_equal]
pub struct ReportView {
    pub event: Seq<char>,
    pub session_id: Seq<char>,
    pub cwd: Seq<char>,
    pub tool_name: Seq<char>,
    pub model: Seq<char>,
    pub title: Seq<char>,
    pub permission_mode: Seq<char>,
    pub transcript_path: Seq<char>,
    pub agent_type: Seq<char>,
    pub zellij_session: Seq<char>,
    pub zellij_pane: Option<u32>,
}

impl View for Report {
    type V = ReportView;

    open spec fn view(&self) -> ReportView {
        ReportView {
            event: self.event@,
            session_id: self.session_id@,
            cwd: self.cwd@,
            tool_name: self.tool_name@,
            model: self.model@,
            title: self.title@,
            permission_mode: self.permission_mode@,
            transcript_path: self.transcript_path@,
            agent_type: self.agent_type@,
            zellij_session: self.zellij_session@,
            zellij_pane: self.zellij_pane,
        }
    }
}

/// The pane that a header names; `None` where it names none.
pub open spec fn pane_value(s: Seq<char>) -> Option<u32> {
    match bounded_decimal(s, u32::MAX as nat) {
        Some(n) => Some(n as u32),
        None => None,
    }
}

/// The report that a body with these members and a request with these headers
/// make.
pub open spec fn report_from(
    members: Map<Seq<char>, Option<Seq<char>>>,
    headers: Map<Seq<char>, Seq<u8>>,
) -> ReportView {
    ReportView {
        event: field_text(members, "hook_event_name"@),
        session_id: field_text(members, "session_id"@),
        cwd: field_text(members, "cwd"@),
        tool_name: field_text(members, "tool_name"@),
        model: field_text(members, "model"@),
        title: field_text(members, "title"@),
        permission_mode: field_text(members, "permission_mode"@),
        transcript_path: field_text(members, "transcript_path"@),
        agent_type: field_text(members, "agent_type"@),
        zellij_session: header_text(headers, "x-zellij-session"@),
        zellij_pane: pane_value(header_text(headers, "x-zellij-pane"@)),
    }
}

/// Reads a report from its JSON and the request's headers. A field that is
/// missing is empty; so is the Zellij location outside Zellij.
pub fn read_report(payload: &Value, headers: &HeaderMap) -> (r: Report)
    ensures
        r@ == report_from(object_members(*payload), header_values(*headers)),
{
    let pane: String = header_str(headers, "x-zellij-pane");
    Report {
        event: str_field(payload, "hook_event_name").to_owned(),
        session_id: str_field(payload, "session_id").to_owned(),
        cwd: str_field(payload, "cwd").to_owned(),
        tool_name: str_field(payload, "tool_name").to_owned(),
        model: str_field(payload, "model").to_owned(),
        title: str_field(payload, "title").to_owned(),
        permission_mode: str_field(payload, "permission_mode").to_owned(),
        transcript_path: str_field(payload, "transcript_path").to_owned(),
        agent_type: str_field(payload, "agent_type").to_owned(),
        zellij_session: header_str(headers, "x-zellij-session"),
        zellij_pane: parse_u32(pane.as_str()),
    }
}

/// The server's state.
#[derive(Debug)]
pub struct AppState {
    instances: Registry,
    /// Shell command to run when a session stops working; `None` for none.
    sound_cmd: Option<String>,
    /// Whether to log each report.
    log: bool,
}

/// The server's state, as mathematical values.
#[verifier::ext_equal]
pub struct AppStateView {
    pub instances: Map<Seq<char>, InstanceView>,
    pub sound_cmd: Option<Seq<char>>,
    pub log: bool,
}

impl View for AppState {
    type V = AppStateView;

    closed spec fn view(&self) -> AppStateView {
        AppStateView {
            instances: self.instances@,
            sound_cmd: optional_text(self.sound_cmd),
            log: self.log,
        }
    }
}

impl AppState {
    /// Each session is tracked once, and each has an id.
    pub closed spec fn wf(&self) -> bool {
        &&& self.instances.wf()
        &&& !self.instances@.contains_key(Seq::empty())
    }

    /// A server that tracks nothing yet.
    pub fn new(sound_cmd: Option<String>, log: bool) -> (state: AppState)
        ensures
            state.wf(),
            state@ == (AppStateView {
                instances: Map::empty(),
                sound_cmd: optional_text(sound_cmd),
                log,
            }),
    {
        AppState { instances: Registry::new(), sound_cmd, log }
    }

    /// A session is tracked under its own id, which is not empty.
    pub proof fn law_tracked_under_own_id(&self, id: Seq<char>)
        requires
            self.wf(),
            self@.instances.contains_key(id),
        ensures
            self@.instances[id].session_id == id,
            id.len() > 0,
    {
        self.instances.lemma_keyed_by_id(id);
        if id.len() == 0 {
            assert(id =~= Seq::empty());
        }
    }
}

/// What a session's entry becomes when a report gives it a status. The model and
/// the title come with the start of the session and stay; the rest is as reported.
pub open spec fn updated_instance(
    earlier: Map<Seq<char>, InstanceView>,
    r: ReportView,
    status: Status,
    now: nat,
) -> InstanceView {
    let starts = r.event == "SessionStart"@;
    let known = earlier.contains_key(r.session_id);
    InstanceView {
        session_id: r.session_id,
        status,
        cwd: r.cwd,
        model: if starts {
            r.model
        } else if known {
            earlier[r.session_id].model
        } else {
            Seq::empty()
        },
        title: if starts {
            r.title
        } else if known {
            earlier[r.session_id].title
        } else {
            Seq::empty()
        },
        permission_mode: r.permission_mode,
        transcript_path: r.transcript_path,
        agent_type: r.agent_type,
        zellij_session: r.zellij_session,
        zellij_pane: r.zellij_pane,
        updated_at: now,
    }
}

/// The tracked sessions after a report at the time `now`. A report without a
/// session id is dropped.
pub open spec fn next_instances(
    earlier: Map<Seq<char>, InstanceView>,
    r: ReportView,
    now: nat,
) -> Map<Seq<char>, InstanceView> {
    if r.session_id.len() == 0 {
        earlier
    } else {
        match event_action(r.event, r.tool_name) {
            Action::Become(status) => earlier.insert(
                r.session_id,
                updated_instance(earlier, r, status, now),
            ),
            Action::Remove => earlier.remove(r.session_id),
            Action::Ignore => earlier,
        }
    }
}

/// The state after a report at the time `now`.
pub open spec fn after_report(state: AppStateView, r: ReportView, now: nat) -> AppStateView {
    AppStateView { instances: next_instances(state.instances, r, now), ..state }
}

/// Whether a status is one in which a session does not work.
pub open spec fn is_halted(status: Status) -> bool {
    status == Status::Idle || status == Status::Waiting
}

/// Whether a report takes a session from working to a halt.
pub open spec fn halts(earlier: Map<Seq<char>, InstanceView>, r: ReportView) -> bool {
    &&& r.session_id.len() > 0
    &&& earlier.contains_key(r.session_id)
    &&& earlier[r.session_id].status == Status::Working
    &&& match event_action(r.event, r.tool_name) {
        Action::Become(status) => is_halted(status),
        _ => false,
    }
}

/// A sound to play: a shell command and the variables to run it with.
#[derive(Debug)]
pub struct SoundCall {
    pub command: String,
    pub env: Vec<(&'static str, String)>,
}

/// A sound to play, as mathematical values.
#[verifier::ext_equal]
pub struct SoundCallView {
    pub command: Seq<char>,
    pub env: Seq<(Seq<char>, Seq<char>)>,
}

impl View for SoundCall {
    type V = SoundCallView;

    open spec fn view(&self) -> SoundCallView {
        SoundCallView {
            command: self.command@,
            env: Seq::new(self.env@.len(), |i: int| (self.env@[i].0@, self.env@[i].1@)),
        }
    }
}

/// The number of a pane as text, empty without a pane.
pub open spec fn pane_text(pane: Option<u32>) -> Seq<char> {
    match pane {
        Some(p) => decimal_text(p as nat),
        None => Seq::empty(),
    }
}

/// The sound of a session that has halted.
pub open spec fn halt_sound(
    cmd: Option<Seq<char>>,
    status: Status,
    session_id: Seq<char>,
    zellij_session: Seq<char>,
    zellij_pane: Option<u32>,
) -> Option<SoundCallView> {
    match cmd {
        Some(command) => Some(
            SoundCallView {
                command,
                env: seq![
                    ("CLAUDE_MONITOR_STATUS"@, status.name()),
                    ("CLAUDE_MONITOR_SESSION_ID"@, session_id),
                    ("CLAUDE_MONITOR_ZELLIJ_SESSION"@, zellij_session),
                    ("CLAUDE_MONITOR_ZELLIJ_PANE"@, pane_text(zellij_pane)),
                ],
            },
        ),
        None => None,
    }
}

/// The value of an optional sound.
pub open spec fn sound_view(sound: Option<SoundCall>) -> Option<SoundCallView> {
    match sound {
        Some(s) => Some(s@),
        None => None,
    }
}

/// The configured sound, if any, for a session that has halted. The command
/// learns which session halted, and how, from its environment.
pub fn play_sound(
    cmd: &Option<String>,
    status: Status,
    session_id: &str,
    zellij_session: &str,
    zellij_pane: Option<u32>,
) -> (sound: Option<SoundCall>)
    ensures
        sound_view(sound) == halt_sound(
            optional_text(*cmd),
            status,
            session_id@,
            zellij_session@,
            zellij_pane,
        ),
{
    match cmd {
        Some(command) => {
            let mut pane: String = String::new();
            match zellij_pane {
                Some(p) => push_decimal(&mut pane, p),
                None => {},
            }
            assert(pane@ =~= pane_text(zellij_pane));
            let mut env: Vec<(&'static str, String)> = Vec::new();
            env.push(("CLAUDE_MONITOR_STATUS", status.as_str().to_owned()));
            env.push(("CLAUDE_MONITOR_SESSION_ID", session_id.to_owned()));
            env.push(("CLAUDE_MONITOR_ZELLIJ_SESSION", zellij_session.to_owned()));
            env.push(("CLAUDE_MONITOR_ZELLIJ_PANE", pane));
            let sound: SoundCall = SoundCall { command: command.clone(), env };
            assert(sound@.env =~= halt_sound(
                optional_text(*cmd),
                status,
                session_id@,
                zellij_session@,
                zellij_pane,
            )->0.env);
            Some(sound)
        },
        None => None,
    }
}

/// The sound that a report calls for.
pub open spec fn report_sound(state: AppStateView, r: ReportView) -> Option<SoundCallView> {
    match event_action(r.event, r.tool_name) {
        Action::Become(status) => if halts(state.instances, r) {
            halt_sound(state.sound_cmd, status, r.session_id, r.zellij_session, r.zellij_pane)
        } else {
            None
        },
        _ => None,
    }
}

/// What the log says became of a report.
pub open spec fn report_outcome(earlier: Map<Seq<char>, InstanceView>, r: ReportView) -> Seq<char> {
    if r.session_id.len() == 0 {
        "ignored (no session_id)"@
    } else {
        match event_action(r.event, r.tool_name) {
            Action::Become(status) => if halts(earlier, r) {
                status.name() + " [SOUND]"@
            } else {
                status.name()
            },
            Action::Remove => "removed"@,
            Action::Ignore => "ignored"@,
        }
    }
}

/// What came of a report: a sound to play and the words for the log.
#[derive(Debug)]
pub struct Applied {
    pub sound: Option<SoundCall>,
    pub outcome: String,
}

/// Takes a report that came at the time `now`, in milliseconds since the Unix
/// epoch.
pub fn apply_report(state: &mut AppState, r: &Report, now: u128) -> (applied: Applied)
    requires
        old(state).wf(),
    ensures
        final(state).wf(),
        final(state)@ == after_report(old(state)@, r@, now as nat),
        sound_view(applied.sound) == report_sound(old(state)@, r@),
        applied.outcome@ == report_outcome(old(state)@.instances, r@),
{
    let ghost before = state@;
    if r.session_id.as_str().is_empty() {
        return Applied { sound: None, outcome: "ignored (no session_id)".to_owned() };
    }
    match action_for(r.event.as_str(), r.tool_name.as_str()) {
        Action::Become(status) => {
            let starts: bool = same_text(r.event.as_str(), "SessionStart");
            let mut was_working: bool = false;
            let mut model: String = String::new();
            let mut title: String = String::new();
            match state.instances.get(r.session_id.as_str()) {
                Some(earlier) => {
                    was_working = match earlier.status {
                        Status::Working => true,
                        _ => false,
                    };
                    if !starts {
                        model = earlier.model.clone();
                        title = earlier.title.clone();
                    }
                },
                None => {},
            }
            if starts {
                model = r.model.clone();
                title = r.title.clone();
            }
            let halted: bool = match status {
                Status::Working => false,
                _ => true,
            };
            let sounded: bool = was_working && halted;
            let sound: Option<SoundCall> = if sounded {
                play_sound(
                    &state.sound_cmd,
                    status,
                    r.session_id.as_str(),
                    r.zellij_session.as_str(),
                    r.zellij_pane,
                )
            } else {
                None
            };
            let instance: Instance = Instance {
                session_id: r.session_id.clone(),
                status,
                cwd: r.cwd.clone(),
                model,
                title,
                permission_mode: r.permission_mode.clone(),
                transcript_path: r.transcript_path.clone(),
                agent_type: r.agent_type.clone(),
                zellij_session: r.zellij_session.clone(),
                zellij_pane: r.zellij_pane,
                updated_at: now,
            };
            assert(instance@ =~= updated_instance(before.instances, r@, status, now as nat));
            state.instances.insert(instance);
            let mut outcome: String = status.as_str().to_owned();
            if sounded {
                outcome.append(" [SOUND]");
            }
            Applied { sound, outcome }
        },
        Action::Remove => {
            state.instances.remove(r.session_id.as_str());
            Applied { sound: None, outcome: "removed".to_owned() }
        },
        Action::Ignore => Applied { sound: None, outcome: "ignored".to_owned() },
    }
}

/// The first eight characters of a session id, all of a shorter one.
pub open spec fn short_text(session_id: Seq<char>) -> Seq<char> {
    session_id.take(if session_id.len() < 8 { session_id.len() as int } else { 8 })
}

/// The first eight characters of a session id, for compact log lines.
pub fn short_id(session_id: &str) -> (s: &str)
    ensures
        s@ == short_text(session_id@),
{
    let n: usize = session_id.unicode_len();
    session_id.substring_char(0, if n < 8 { n } else { 8 })
}

/// A line of the log.
pub open spec fn log_text(
    time: Seq<char>,
    event: Seq<char>,
    id: Seq<char>,
    zellij_session: Seq<char>,
    outcome: Seq<char>,
) -> Seq<char> {
    let z = if zellij_session.len() == 0 {
        "-"@
    } else {
        zellij_session
    };
    "["@ + time + "] report event="@ + padded(event, 16) + " id="@ + padded(id, 8) + " zellij="@ + z
        + " -> "@ + outcome
}

/// The line of the log for a report at a time of day.
pub fn log_line(
    time: &str,
    event: &str,
    id: &str,
    zellij_session: &str,
    outcome: &str,
) -> (line: String)
    ensures
        line@ == log_text(time@, event@, id@, zellij_session@, outcome@),
{
    let mut line: String = "[".to_owned();
    line.append(time);
    line.append("] report event=");
    push_padded(&mut line, event, 16);
    line.append(" id=");
    push_padded(&mut line, id, 8);
    line.append(" zellij=");
    if zellij_session.is_empty() {
        line.append("-");
    } else {
        line.append(zellij_session);
    }
    line.append(" -> ");
    line.append(outcome);
    line
}

/// The line of the log for a report that came now.
pub fn log_report(event: &str, id: &str, zellij_session: &str, outcome: &str) -> (line: String)
    ensures
        exists|t: SystemTime|
            (#[trigger] reading_at(t)).wf() && line@ == log_text(
                hms_text(reading_at(t)),
                event@,
                id@,
                zellij_session@,
                outcome@,
            ),
{
    let time: String = hms_millis();
    log_line(time.as_str(), event, id, zellij_session, outcome)
}

/// The id by which the log calls a report's session.
pub open spec fn log_id(r: ReportView) -> Seq<char> {
    if r.session_id.len() == 0 {
        "-"@
    } else {
        short_text(r.session_id)
    }
}

/// What the server does about a report: a sound to play, a line to log, and the
/// answer to send.
#[derive(Debug)]
pub struct Handled {
    pub sound: Option<SoundCall>,
    pub log: Option<String>,
    pub reply: Value,
}

/// Takes the report of a hook. The answer is always the empty object, by which
/// hooks that ask for a decision get no opinion and go on as usual.
pub fn report(state: &mut AppState, headers: &HeaderMap, body: &[u8]) -> (handled: Handled)
    requires
        old(state).wf(),
    ensures
        final(state).wf(),
        ({
            let r = report_from(body_members(body@), header_values(*headers));
            &&& exists|t: SystemTime|
                (#[trigger] reading_at(t)).wf() && final(state)@ == after_report(
                    old(state)@,
                    r,
                    reading_millis(reading_at(t)),
                )
            &&& sound_view(handled.sound) == report_sound(old(state)@, r)
            &&& match handled.log {
                Some(line) => old(state)@.log && exists|t: SystemTime|
                    (#[trigger] reading_at(t)).wf() && line@ == log_text(
                        hms_text(reading_at(t)),
                        r.event,
                        log_id(r),
                        r.zellij_session,
                        report_outcome(old(state)@.instances, r),
                    ),
                None => !old(state)@.log,
            }
        }),
        is_object(handled.reply),
        object_members(handled.reply) == no_members(),
{
    let payload: Value = parse_body(body);
    let r: Report = read_report(&payload, headers);
    let applied: Applied = apply_report(state, &r, now_millis());
    let log: Option<String> = if state.log {
        let id: &str = if r.session_id.as_str().is_empty() {
            "-"
        } else {
            short_id(r.session_id.as_str())
        };
        Some(
            log_report(
                r.event.as_str(),
                id,
                r.zellij_session.as_str(),
                applied.outcome.as_str(),
            ),
        )
    } else {
        None
    };
    Handled { sound: applied.sound, log, reply: empty_object() }
}

/// An instance as clients get it. Fields that are empty are left out.
#[derive(Debug)]
pub struct InstanceRecord {
    pub session_id: String,
    pub status: &'static str,
    pub cwd: Option<String>,
    pub model: Option<String>,
    pub title: Option<String>,
    pub permission_mode: Option<String>,
    pub transcript_path: Option<String>,
    pub agent_type: Option<String>,
    pub zellij_session: Option<String>,
    pub zellij_pane: Option<u32>,
    pub updated_at: u128,
}

/// An instance as clients get it, as mathematical values.
#[verifier::ext_equal]
pub struct InstanceRecordView {
    pub session_id: Seq<char>,
    pub status: Seq<char>,
    pub cwd: Option<Seq<char>>,
    pub model: Option<Seq<char>>,
    pub title: Option<Seq<char>>,
    pub permission_mode: Option<Seq<char>>,
    pub transcript_path: Option<Seq<char>>,
    pub agent_type: Option<Seq<char>>,
    pub zellij_session: Option<Seq<char>>,
    pub zellij_pane: Option<u32>,
    pub updated_at: nat,
}

impl View for InstanceRecord {
    type V = InstanceRecordView;

    open spec fn view(&self) -> InstanceRecordView {
        InstanceRecordView {
            session_id: self.session_id@,
            status: self.status@,
            cwd: optional_text(self.cwd),
            model: optional_text(self.model),
            title: optional_text(self.title),
            permission_mode: optional_text(self.permission_mode),
            transcript_path: optional_text(self.transcript_path),
            agent_type: optional_text(self.agent_type),
            zellij_session: optional_text(self.zellij_session),
            zellij_pane: self.zellij_pane,
            updated_at: self.updated_at as nat,
        }
    }
}

/// A text, unless it is empty.
pub open spec fn unless_empty(s: Seq<char>) -> Option<Seq<char>> {
    if s.len() == 0 {
        None
    } else {
        Some(s)
    }
}

/// An instance without its empty fields.
pub open spec fn record_of(i: InstanceView) -> InstanceRecordView {
    InstanceRecordView {
        session_id: i.session_id,
        status: i.status.name(),
        cwd: unless_empty(i.cwd),
        model: unless_empty(i.model),
        title: unless_empty(i.title),
        permission_mode: unless_empty(i.permission_mode),
        transcript_path: unless_empty(i.transcript_path),
        agent_type: unless_empty(i.agent_type),
        zellij_session: unless_empty(i.zellij_session),
        zellij_pane: i.zellij_pane,
        updated_at: i.updated_at,
    }
}

fn non_empty(s: &String) -> (t: Option<String>)
    ensures
        optional_text(t) == unless_empty(s@),
{
    if s.as_str().is_empty() {
        None
    } else {
        Some(s.clone())
    }
}

/// An instance without its empty fields.
pub fn instance_record(i: &Instance) -> (record: InstanceRecord)
    ensures
        record@ == record_of(i@),
{
    InstanceRecord {
        session_id: i.session_id.clone(),
        status: i.status.as_str(),
        cwd: non_empty(&i.cwd),
        model: non_empty(&i.model),
        title: non_empty(&i.title),
        permission_mode: non_empty(&i.permission_mode),
        transcript_path: non_empty(&i.transcript_path),
        agent_type: non_empty(&i.agent_type),
        zellij_session: non_empty(&i.zellij_session),
        zellij_pane: i.zellij_pane,
        updated_at: i.updated_at,
    }
}

/// The values of a row of records.
pub open spec fn record_views(v: Seq<InstanceRecord>) -> Seq<InstanceRecordView> {
    Seq::new(v.len(), |i: int| v[i]@)
}

/// The answer to a request for the state: every tracked session, in order.
pub open spec fn state_records(m: Map<Seq<char>, InstanceView>) -> Seq<InstanceRecordView> {
    Seq::new(listing_of(m).len(), |i: int| record_of(listing_of(m)[i]))
}

/// The tracked sessions, by Zellij session, pane and session id.
pub fn state_handler(state: &AppState) -> (records: Vec<InstanceRecord>)
    requires
        state.wf(),
    ensures
        is_listing(state@.instances, listing_of(state@.instances)),
        record_views(records@) == state_records(state@.instances),
{
    let list: Vec<Instance> = state.instances.listing();
    let ghost all = listing_of(state@.instances);
    let mut records: Vec<InstanceRecord> = Vec::new();
    let mut k: usize = 0;
    while k < list.len()
        invariant
            crate::registry::instance_views(list@) == all,
            k <= list@.len(),
            records@.len() == k,
            forall|i: int| 0 <= i < k ==> (#[trigger] records@[i])@ == record_of(all[i]),
        decreases list@.len() - k,
    {
        assert(all[k as int] == list@[k as int]@);
        records.push(instance_record(&list[k]));
        k = k + 1;
    }
    assert(record_views(records@) =~= state_records(state@.instances));
    records
}

} // verus!
