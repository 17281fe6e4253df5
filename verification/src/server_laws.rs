//! What holds of the server as a whole.

use crate::event::{event_action, Action, Status};
use crate::headers::{header_text, is_plain, is_plain_byte, plain_text};
use crate::json::{body_members, field_text, no_members, parsed_members};
use crate::registry::{
    is_listing, law_listing_ascends, lemma_not_before_itself, listing_of, InstanceView,
};
use crate::server::{
    after_report, halts, log_id, log_text, next_instances, pane_text, pane_value, record_of,
    record_views, report_from, report_outcome, report_sound, short_text, sound_view, state_records,
    updated_instance, AppStateView, InstanceRecord, Report, ReportView, SoundCall,
};
use crate::text::{
    decimal_text, decimal_value, law_decimal_is_plain, law_decimal_read_back, text_order, Order,
};
use vstd::prelude::*;

verus! {

/// Whether a report gives its session a status.
pub open spec fn gives_status(r: ReportView) -> bool {
    r.session_id.len() > 0 && event_action(r.event, r.tool_name) is Become
}

/// The status that a report gives.
pub open spec fn status_given(r: ReportView) -> Status {
    event_action(r.event, r.tool_name)->Become_0
}

/// What is reported is what is listed: a listing after a report that gives a
/// status holds the session with that status and the reported details, once.
pub proof fn law_report_is_listed(
    m: Map<Seq<char>, InstanceView>,
    r: ReportView,
    now: nat,
    list: Seq<InstanceView>,
)
    requires
        gives_status(r),
        is_listing(next_instances(m, r, now), list),
    ensures
        exists|i: int|
            0 <= i < list.len() && {
                &&& #[trigger] list[i] == updated_instance(m, r, status_given(r), now)
                &&& record_of(list[i]).status == status_given(r).name()
                &&& list[i].session_id == r.session_id
                &&& list[i].cwd == r.cwd
                &&& list[i].zellij_session == r.zellij_session
                &&& list[i].zellij_pane == r.zellij_pane
                &&& forall|j: int|
                    0 <= j < list.len() && j != i ==> (#[trigger] list[j]).session_id
                        != r.session_id
            },
{
    let next = next_instances(m, r, now);
    let value = updated_instance(m, r, status_given(r), now);
    assert(next.contains_key(r.session_id));
    assert(next[r.session_id] == value);
    assert(list.contains(value));
    let i = list.index_of(value);
    assert(list[i] == value);
    assert forall|j: int| 0 <= j < list.len() && j != i implies (#[trigger] list[j]).session_id
        != r.session_id by {
        if list[j].session_id == r.session_id {
            assert(list[j] == value);
            lemma_not_before_itself(value);
        }
    }
}

/// The end of a session takes it off the list.
pub proof fn law_session_end_forgets(
    m: Map<Seq<char>, InstanceView>,
    r: ReportView,
    now: nat,
    list: Seq<InstanceView>,
)
    requires
        r.session_id.len() > 0,
        r.event == "SessionEnd"@,
        is_listing(next_instances(m, r, now), list),
    ensures
        !next_instances(m, r, now).contains_key(r.session_id),
        forall|i: int| 0 <= i < list.len() ==> (#[trigger] list[i]).session_id != r.session_id,
{
    law_event_meanings(r.tool_name);
}

/// A report leaves every other session as it was.
pub proof fn law_other_sessions_untouched(
    m: Map<Seq<char>, InstanceView>,
    r: ReportView,
    now: nat,
    id: Seq<char>,
)
    requires
        id != r.session_id,
    ensures
        next_instances(m, r, now).contains_key(id) <==> m.contains_key(id),
        m.contains_key(id) ==> next_instances(m, r, now)[id] == m[id],
{
}

/// A report without a session id changes nothing and makes no sound.
pub proof fn law_no_id_no_effect(state: AppStateView, r: ReportView, now: nat)
    requires
        r.session_id.len() == 0,
    ensures
        after_report(state, r, now) == state,
        report_sound(state, r) is None,
{
}

/// An event of no meaning changes nothing and makes no sound.
pub proof fn law_unknown_event_no_effect(state: AppStateView, r: ReportView, now: nat)
    requires
        event_action(r.event, r.tool_name) == Action::Ignore,
    ensures
        after_report(state, r, now) == state,
        report_sound(state, r) is None,
{
}

/// A body that is not JSON is taken for the empty object: it has no session id,
/// so it changes nothing, whatever the headers.
pub proof fn law_bad_body_no_effect(
    state: AppStateView,
    headers: Map<Seq<char>, Seq<u8>>,
    now: nat,
)
    ensures
        report_from(no_members(), headers).session_id.len() == 0,
        after_report(state, report_from(no_members(), headers), now) == state,
{
    assert(field_text(no_members(), "session_id"@) =~= Seq::empty());
}

/// What the events mean: a start or a stop is idle; a prompt or the use of a tool
/// is working, unless the tool asks the user, which is waiting; a permission
/// dialog or an elicitation is waiting; the end forgets; a notification says
/// nothing.
pub proof fn law_event_meanings(tool: Seq<char>)
    ensures
        event_action("SessionStart"@, tool) == Action::Become(Status::Idle),
        event_action("Stop"@, tool) == Action::Become(Status::Idle),
        event_action("SubagentStop"@, tool) == Action::Become(Status::Idle),
        event_action("UserPromptSubmit"@, tool) == Action::Become(Status::Working),
        event_action("PostToolUse"@, tool) == Action::Become(Status::Working),
        event_action("PreToolUse"@, tool) == (if tool == "AskUserQuestion"@ || tool
            == "ExitPlanMode"@ {
            Action::Become(Status::Waiting)
        } else {
            Action::Become(Status::Working)
        }),
        event_action("PermissionRequest"@, tool) == Action::Become(Status::Waiting),
        event_action("Elicitation"@, tool) == Action::Become(Status::Waiting),
        event_action("SessionEnd"@, tool) == Action::Remove,
        event_action("Notification"@, tool) == Action::Ignore,
{
    reveal_strlit("SessionStart");
    reveal_strlit("Stop");
    reveal_strlit("SubagentStop");
    reveal_strlit("UserPromptSubmit");
    reveal_strlit("PostToolUse");
    reveal_strlit("PreToolUse");
    reveal_strlit("PermissionRequest");
    reveal_strlit("Elicitation");
    reveal_strlit("SessionEnd");
    reveal_strlit("Notification");
    assert("SessionStart"@.len() == 12 && "SubagentStop"@.len() == 12);
    assert("Stop"@.len() == 4 && "UserPromptSubmit"@.len() == 16);
    assert("PostToolUse"@.len() == 11 && "Elicitation"@.len() == 11);
    assert("PreToolUse"@.len() == 10 && "SessionEnd"@.len() == 10);
    assert("PermissionRequest"@.len() == 17 && "Notification"@.len() == 12);
    assert("SubagentStop"@[1] == 'u' && "SessionStart"@[1] == 'e' && "Notification"@[1] == 'o');
    assert("PostToolUse"@[0] == 'P' && "Elicitation"@[0] == 'E');
    assert("PreToolUse"@[0] == 'P' && "SessionEnd"@[0] == 'S');
}

/// A sound is played exactly when a command is set and a report takes a tracked
/// session from working to idle or waiting. It tells which of the two.
pub proof fn law_sound_on_halt_only(state: AppStateView, r: ReportView)
    ensures
        report_sound(state, r) is Some <==> {
            &&& state.sound_cmd is Some
            &&& gives_status(r)
            &&& status_given(r) == Status::Idle || status_given(r) == Status::Waiting
            &&& state.instances.contains_key(r.session_id)
            &&& state.instances[r.session_id].status == Status::Working
        },
        report_sound(state, r) is Some ==> report_sound(state, r)->0.command
            == state.sound_cmd->0 && report_sound(state, r)->0.env[0].1 == status_given(r).name(),
{
}

/// A session that was not tracked makes no sound.
pub proof fn law_new_session_silent(state: AppStateView, r: ReportView)
    requires
        !state.instances.contains_key(r.session_id),
    ensures
        report_sound(state, r) is None,
{
}

/// A report that leaves a session halted is not followed at once by another halt
/// of it.
pub proof fn law_no_second_halt_at_once(
    m: Map<Seq<char>, InstanceView>,
    first: ReportView,
    second: ReportView,
    now: nat,
)
    requires
        gives_status(first),
        status_given(first) == Status::Idle || status_given(first) == Status::Waiting,
        second.session_id == first.session_id,
    ensures
        !halts(next_instances(m, first, now), second),
{
}

/// Whether states follow one another by reports: each state is that after the
/// report before it, at the time of that report.
pub open spec fn is_run(states: Seq<AppStateView>, rs: Seq<ReportView>, ts: Seq<nat>) -> bool {
    &&& states.len() == rs.len() + 1
    &&& ts.len() == rs.len()
    &&& forall|i: int|
        0 <= i < rs.len() ==> states[i + 1] == after_report(states[i], #[trigger] rs[i], ts[i])
}

/// Whether a report sets a session to working.
pub open spec fn sets_working(r: ReportView, id: Seq<char>) -> bool {
    r.session_id == id && gives_status(r) && status_given(r) == Status::Working
}

/// Whether a session is tracked as working.
pub open spec fn is_working(m: Map<Seq<char>, InstanceView>, id: Seq<char>) -> bool {
    m.contains_key(id) && m[id].status == Status::Working
}

/// A session that does not work stays so until a report says otherwise.
proof fn lemma_no_work_until_reported(
    states: Seq<AppStateView>,
    rs: Seq<ReportView>,
    ts: Seq<nat>,
    id: Seq<char>,
    from: int,
    to: int,
)
    requires
        is_run(states, rs, ts),
        0 <= from <= to <= rs.len(),
        !is_working(states[from].instances, id),
        forall|k: int| from <= k < to ==> !sets_working(#[trigger] rs[k], id),
    ensures
        !is_working(states[to].instances, id),
    decreases to - from,
{
    if from < to {
        lemma_no_work_until_reported(states, rs, ts, id, from, to - 1);
        let r = rs[to - 1];
        assert(states[to] == after_report(states[to - 1], r, ts[to - 1]));
        assert(!sets_working(r, id));
    }
}

/// One halt makes one sound: in any run of the server, if two reports of a session
/// both sound, a report between them has set it to working.
pub proof fn law_one_sound_per_halt(
    states: Seq<AppStateView>,
    rs: Seq<ReportView>,
    ts: Seq<nat>,
    i: int,
    j: int,
)
    requires
        is_run(states, rs, ts),
        0 <= i < j < rs.len(),
        rs[i].session_id == rs[j].session_id,
        report_sound(states[i], rs[i]) is Some,
        report_sound(states[j], rs[j]) is Some,
    ensures
        exists|k: int| i < k < j && sets_working(#[trigger] rs[k], rs[i].session_id),
{
    let id = rs[i].session_id;
    assert(states[i + 1] == after_report(states[i], rs[i], ts[i]));
    if forall|k: int| i < k < j ==> !sets_working(#[trigger] rs[k], id) {
        lemma_no_work_until_reported(states, rs, ts, id, i + 1, j);
    }
}

/// No sound without work: in a run of a server that tracks nothing at first, a
/// report that sounds comes after one that has set its session to working.
pub proof fn law_no_sound_without_work(
    states: Seq<AppStateView>,
    rs: Seq<ReportView>,
    ts: Seq<nat>,
    j: int,
)
    requires
        is_run(states, rs, ts),
        states[0].instances == Map::<Seq<char>, InstanceView>::empty(),
        0 <= j < rs.len(),
        report_sound(states[j], rs[j]) is Some,
    ensures
        exists|k: int| 0 <= k < j && sets_working(#[trigger] rs[k], rs[j].session_id),
{
    let id = rs[j].session_id;
    if forall|k: int| 0 <= k < j ==> !sets_working(#[trigger] rs[k], id) {
        lemma_no_work_until_reported(states, rs, ts, id, 0, j);
    }
}

/// Work that is followed by a halt sounds.
pub proof fn law_halt_after_work_sounds(
    state: AppStateView,
    work: ReportView,
    halt: ReportView,
    now: nat,
)
    requires
        state.sound_cmd is Some,
        gives_status(work),
        status_given(work) == Status::Working,
        gives_status(halt),
        status_given(halt) == Status::Idle || status_given(halt) == Status::Waiting,
        halt.session_id == work.session_id,
    ensures
        report_sound(after_report(state, work, now), halt) is Some,
{
}

/// The Zellij location plays no part in what is tracked: two reports that differ
/// in it alone track the same sessions with the same status, sound alike and have
/// the same outcome.
pub proof fn law_location_only_carried(
    m: Map<Seq<char>, InstanceView>,
    a: ReportView,
    b: ReportView,
    now: nat,
    id: Seq<char>,
)
    requires
        b == (ReportView {
            zellij_session: b.zellij_session,
            zellij_pane: b.zellij_pane,
            ..a
        }),
    ensures
        next_instances(m, a, now).contains_key(id) <==> next_instances(m, b, now).contains_key(id),
        next_instances(m, a, now).contains_key(id) ==> next_instances(m, a, now)[id].status
            == next_instances(m, b, now)[id].status && next_instances(m, a, now)[id].cwd
            == next_instances(m, b, now)[id].cwd,
        halts(m, a) == halts(m, b),
        report_outcome(m, a) == report_outcome(m, b),
{
}

/// Whether a report starts a session anew or ends it.
pub open spec fn starts_or_ends(r: ReportView, id: Seq<char>) -> bool {
    r.session_id == id && (r.event == "SessionStart"@ || event_action(r.event, r.tool_name)
        == Action::Remove)
}

/// The model and the title that come with the start of a session stay with it
/// until it starts anew or ends: in any run, they are those of the start after
/// every report up to then.
pub proof fn law_start_details_kept(
    states: Seq<AppStateView>,
    rs: Seq<ReportView>,
    ts: Seq<nat>,
    i: int,
    j: int,
)
    requires
        is_run(states, rs, ts),
        0 <= i < j <= rs.len(),
        rs[i].session_id.len() > 0,
        rs[i].event == "SessionStart"@,
        forall|k: int| i < k < j ==> !starts_or_ends(#[trigger] rs[k], rs[i].session_id),
    ensures
        states[j].instances.contains_key(rs[i].session_id),
        states[j].instances[rs[i].session_id].model == rs[i].model,
        states[j].instances[rs[i].session_id].title == rs[i].title,
    decreases j - i,
{
    let r = rs[j - 1];
    assert(states[j] == after_report(states[j - 1], r, ts[j - 1]));
    if j == i + 1 {
        law_event_meanings(r.tool_name);
    } else {
        law_start_details_kept(states, rs, ts, i, j - 1);
        assert(!starts_or_ends(r, rs[i].session_id));
    }
}

/// A report that comes twice at the same time is as good as once.
pub proof fn law_repeated_report(m: Map<Seq<char>, InstanceView>, r: ReportView, now: nat)
    ensures
        next_instances(next_instances(m, r, now), r, now) == next_instances(m, r, now),
{
    let once = next_instances(m, r, now);
    let twice = next_instances(once, r, now);
    if gives_status(r) {
        assert(updated_instance(once, r, status_given(r), now) =~= updated_instance(
            m,
            r,
            status_given(r),
            now,
        ));
    }
    assert(twice =~= once);
}

/// Fields that are empty are left out of a record, all others are in it.
pub proof fn law_empty_fields_left_out(i: InstanceView)
    ensures
        record_of(i).cwd is None <==> i.cwd.len() == 0,
        record_of(i).model is None <==> i.model.len() == 0,
        record_of(i).title is None <==> i.title.len() == 0,
        record_of(i).permission_mode is None <==> i.permission_mode.len() == 0,
        record_of(i).transcript_path is None <==> i.transcript_path.len() == 0,
        record_of(i).agent_type is None <==> i.agent_type.len() == 0,
        record_of(i).zellij_session is None <==> i.zellij_session.len() == 0,
        record_of(i).zellij_pane is None <==> i.zellij_pane is None,
{
}

/// The pane number that a sound command gets is one that the server reads back as
/// that pane.
pub proof fn law_pane_read_back(pane: u32)
    ensures
        pane_value(pane_text(Some(pane))) == Some(pane),
{
    law_decimal_read_back(pane as nat);
}

/// A short id is the start of the id, eight characters of it or all of a shorter
/// one.
pub proof fn law_short_id_is_prefix(session_id: Seq<char>)
    ensures
        short_text(session_id).is_prefix_of(session_id),
        short_text(session_id).len() == (if session_id.len() < 8 {
            session_id.len()
        } else {
            8
        }),
        session_id.len() <= 8 ==> short_text(session_id) == session_id,
{
    assert(session_id.take(session_id.len() as int) =~= session_id);
}

/// Whether `text` is what a JSON object says under a key: its text, or nothing
/// where it has no such member or one that is no string.
pub open spec fn says(
    members: Map<Seq<char>, Option<Seq<char>>>,
    key: Seq<char>,
    text: Seq<char>,
) -> bool {
    &&& members.contains_key(key) && members[key] is Some ==> Some(text) == members[key]
    &&& !members.contains_key(key) || members[key] is None ==> text.len() == 0
}

/// Whether `text` is what a header says: its bytes as characters, or nothing where
/// it is missing or a byte of it is neither visible ASCII nor a space nor a tab.
pub open spec fn header_says(
    headers: Map<Seq<char>, Seq<u8>>,
    name: Seq<char>,
    text: Seq<char>,
) -> bool {
    if headers.contains_key(name) && forall|i: int|
        0 <= i < headers[name].len() ==> (32 <= #[trigger] headers[name][i] <= 126
            || headers[name][i] == 9) {
        text.len() == headers[name].len() && forall|i: int|
            0 <= i < text.len() ==> #[trigger] text[i] as int == headers[name][i]
    } else {
        text.len() == 0
    }
}

proof fn lemma_header_says(headers: Map<Seq<char>, Seq<u8>>, name: Seq<char>, text: Seq<char>)
    ensures
        header_says(headers, name, text) <==> text == header_text(headers, name),
{
    let t = header_text(headers, name);
    if headers.contains_key(name) {
        let bytes = headers[name];
        assert(is_plain(bytes) <==> forall|i: int|
            0 <= i < headers[name].len() ==> (32 <= #[trigger] headers[name][i] <= 126
                || headers[name][i] == 9)) by {
            if is_plain(bytes) {
                assert forall|i: int| 0 <= i < headers[name].len() implies (32
                    <= #[trigger] headers[name][i] <= 126 || headers[name][i] == 9) by {
                    assert(is_plain_byte(bytes[i]));
                }
            }
        }
        if is_plain(bytes) {
            assert(t =~= plain_text(bytes));
            if header_says(headers, name, text) {
                assert forall|i: int| 0 <= i < text.len() implies text[i] == t[i] by {
                    assert(text[i] as int == bytes[i]);
                }
                assert(text =~= t);
            }
        }
    }
    if header_says(headers, name, text) && text.len() == 0 && t.len() == 0 {
        assert(text =~= t);
    }
}

/// A report says of its session what the body says under the names of the hooks'
/// fields, and of its place what the header for the Zellij session says.
pub proof fn law_report_is_what_was_sent(
    members: Map<Seq<char>, Option<Seq<char>>>,
    headers: Map<Seq<char>, Seq<u8>>,
)
    ensures
        ({
            let r = report_from(members, headers);
            &&& says(members, "hook_event_name"@, r.event)
            &&& says(members, "session_id"@, r.session_id)
            &&& says(members, "cwd"@, r.cwd)
            &&& says(members, "tool_name"@, r.tool_name)
            &&& says(members, "model"@, r.model)
            &&& says(members, "title"@, r.title)
            &&& says(members, "permission_mode"@, r.permission_mode)
            &&& says(members, "transcript_path"@, r.transcript_path)
            &&& says(members, "agent_type"@, r.agent_type)
            &&& header_says(headers, "x-zellij-session"@, r.zellij_session)
        }),
{
    lemma_header_says(
        headers,
        "x-zellij-session"@,
        report_from(members, headers).zellij_session,
    );
}

/// A report carries the pane that its header writes, whatever its number, and none
/// only where the header writes no number or one beyond 32 bits. A header that is
/// missing or not plain text says the empty text, which writes none.
pub proof fn law_report_carries_its_pane(
    members: Map<Seq<char>, Option<Seq<char>>>,
    headers: Map<Seq<char>, Seq<u8>>,
    text: Seq<char>,
    pane: u32,
)
    requires
        header_says(headers, "x-zellij-pane"@, text),
    ensures
        report_from(members, headers).zellij_pane == Some(pane) <==> decimal_value(text) == Some(
            pane as nat,
        ),
        report_from(members, headers).zellij_pane is None <==> decimal_value(text) is None
            || decimal_value(text)->0 > 0xffff_ffff,
        text.len() == 0 ==> decimal_value(text) is None,
{
    lemma_header_says(headers, "x-zellij-pane"@, text);
}

/// A pane number that a client writes in the header comes back in the report, for
/// every pane there can be.
pub proof fn law_pane_written_is_pane_reported(
    members: Map<Seq<char>, Option<Seq<char>>>,
    headers: Map<Seq<char>, Seq<u8>>,
    pane: u32,
)
    requires
        headers.contains_key("x-zellij-pane"@),
        headers["x-zellij-pane"@].len() == decimal_text(pane as nat).len(),
        forall|i: int|
            0 <= i < decimal_text(pane as nat).len() ==> headers["x-zellij-pane"@][i]
                == #[trigger] decimal_text(pane as nat)[i] as int,
    ensures
        report_from(members, headers).zellij_pane == Some(pane),
{
    let text = decimal_text(pane as nat);
    let bytes = headers["x-zellij-pane"@];
    law_decimal_is_plain(pane as nat);
    law_decimal_read_back(pane as nat);
    assert forall|i: int| 0 <= i < bytes.len() implies (32 <= #[trigger] bytes[i] <= 126
        || bytes[i] == 9) by {
        assert('0' <= text[i] <= '9');
    }
    assert(header_says(headers, "x-zellij-pane"@, text));
    law_report_carries_its_pane(members, headers, text, pane);
}

/// A body is read as the JSON that it writes, and as an object without members
/// where it writes none.
pub proof fn law_body_is_its_json(body: Seq<u8>, key: Seq<char>)
    ensures
        parsed_members(body) is Some ==> Some(body_members(body)) == parsed_members(body),
        parsed_members(body) is None ==> !body_members(body).contains_key(key),
{
}

/// The report as a value holds every field of it.
pub proof fn law_report_view(r: Report)
    ensures
        r@.event == r.event@,
        r@.session_id == r.session_id@,
        r@.cwd == r.cwd@,
        r@.tool_name == r.tool_name@,
        r@.model == r.model@,
        r@.title == r.title@,
        r@.permission_mode == r.permission_mode@,
        r@.transcript_path == r.transcript_path@,
        r@.agent_type == r.agent_type@,
        r@.zellij_session == r.zellij_session@,
        r@.zellij_pane == r.zellij_pane,
{
}

/// A record as a value holds every field of it.
pub proof fn law_record_view(r: InstanceRecord, v: Seq<InstanceRecord>)
    ensures
        r@.session_id == r.session_id@,
        r@.status == r.status@,
        r@.cwd is Some <==> r.cwd is Some,
        r.cwd is Some ==> r@.cwd->0 == r.cwd->0@,
        r@.model is Some <==> r.model is Some,
        r.model is Some ==> r@.model->0 == r.model->0@,
        r@.title is Some <==> r.title is Some,
        r.title is Some ==> r@.title->0 == r.title->0@,
        r@.permission_mode is Some <==> r.permission_mode is Some,
        r.permission_mode is Some ==> r@.permission_mode->0 == r.permission_mode->0@,
        r@.transcript_path is Some <==> r.transcript_path is Some,
        r.transcript_path is Some ==> r@.transcript_path->0 == r.transcript_path->0@,
        r@.agent_type is Some <==> r.agent_type is Some,
        r.agent_type is Some ==> r@.agent_type->0 == r.agent_type->0@,
        r@.zellij_session is Some <==> r.zellij_session is Some,
        r.zellij_session is Some ==> r@.zellij_session->0 == r.zellij_session->0@,
        r@.zellij_pane == r.zellij_pane,
        r@.updated_at == r.updated_at,
        record_views(v).len() == v.len(),
        forall|i: int| 0 <= i < v.len() ==> #[trigger] record_views(v)[i] == v[i]@,
{
}

/// A sound as a value holds its command and every variable.
pub proof fn law_sound_view(s: SoundCall, o: Option<SoundCall>)
    ensures
        s@.command == s.command@,
        s@.env.len() == s.env@.len(),
        forall|i: int|
            0 <= i < s.env@.len() ==> #[trigger] s@.env[i] == (s.env@[i].0@, s.env@[i].1@),
        sound_view(o) is Some <==> o is Some,
        o is Some ==> sound_view(o)->0 == o->0@,
{
}

/// A record carries what is tracked, whole: the id, the name of the status, the
/// pane and the time as they are, and each text that is not empty.
pub proof fn law_record_is_whole(i: InstanceView)
    ensures
        record_of(i).session_id == i.session_id,
        i.status == Status::Idle ==> record_of(i).status == "idle"@,
        i.status == Status::Working ==> record_of(i).status == "working"@,
        i.status == Status::Waiting ==> record_of(i).status == "waiting"@,
        record_of(i).cwd is Some ==> record_of(i).cwd->0 == i.cwd,
        record_of(i).model is Some ==> record_of(i).model->0 == i.model,
        record_of(i).title is Some ==> record_of(i).title->0 == i.title,
        record_of(i).permission_mode is Some ==> record_of(i).permission_mode->0
            == i.permission_mode,
        record_of(i).transcript_path is Some ==> record_of(i).transcript_path->0
            == i.transcript_path,
        record_of(i).agent_type is Some ==> record_of(i).agent_type->0 == i.agent_type,
        record_of(i).zellij_session is Some ==> record_of(i).zellij_session->0 == i.zellij_session,
        record_of(i).zellij_pane == i.zellij_pane,
        record_of(i).updated_at == i.updated_at,
{
}

/// What a report that gives a status leaves tracked under its session's id: the
/// details as reported, the time of the report, and the model and the title of a
/// start, or else those that were there before.
pub proof fn law_report_is_tracked(m: Map<Seq<char>, InstanceView>, r: ReportView, now: nat)
    requires
        gives_status(r),
    ensures
        next_instances(m, r, now).contains_key(r.session_id),
        ({
            let i = next_instances(m, r, now)[r.session_id];
            &&& i.session_id == r.session_id
            &&& i.status == status_given(r)
            &&& i.cwd == r.cwd
            &&& i.permission_mode == r.permission_mode
            &&& i.transcript_path == r.transcript_path
            &&& i.agent_type == r.agent_type
            &&& i.zellij_session == r.zellij_session
            &&& i.zellij_pane == r.zellij_pane
            &&& i.updated_at == now
            &&& r.event == "SessionStart"@ ==> i.model == r.model && i.title == r.title
            &&& r.event != "SessionStart"@ && m.contains_key(r.session_id) ==> i.model
                == m[r.session_id].model && i.title == m[r.session_id].title
            &&& r.event != "SessionStart"@ && !m.contains_key(r.session_id) ==> i.model.len() == 0
                && i.title.len() == 0
        }),
{
}

/// A report leaves the server's settings as they are.
pub proof fn law_settings_stay(state: AppStateView, r: ReportView, now: nat)
    ensures
        after_report(state, r, now).sound_cmd == state.sound_cmd,
        after_report(state, r, now).log == state.log,
{
}

/// The answer to a request for the state holds one record for each tracked session,
/// under its whole id, and no other.
pub proof fn law_answer_is_what_is_tracked(m: Map<Seq<char>, InstanceView>, id: Seq<char>)
    requires
        is_listing(m, listing_of(m)),
    ensures
        m.contains_key(id) ==> exists|k: int|
            0 <= k < state_records(m).len() && #[trigger] state_records(m)[k] == record_of(m[id]),
        forall|k: int|
            0 <= k < state_records(m).len() ==> m.contains_key(
                (#[trigger] state_records(m)[k]).session_id,
            ) && state_records(m)[k] == record_of(m[state_records(m)[k].session_id]),
        forall|j: int, k: int|
            0 <= j < k < state_records(m).len() ==> (#[trigger] state_records(m)[j]).session_id != (
            #[trigger] state_records(m)[k]).session_id,
{
    let list = listing_of(m);
    let records = state_records(m);
    if m.contains_key(id) {
        assert(list.contains(m[id]));
        let k = list.index_of(m[id]);
        assert(records[k] == record_of(m[id]));
    }
    assert forall|k: int| 0 <= k < records.len() implies m.contains_key(
        (#[trigger] records[k]).session_id,
    ) && records[k] == record_of(m[records[k].session_id]) by {
        assert(records[k] == record_of(list[k]));
        assert(m[list[k].session_id] == list[k]);
    }
    assert forall|j: int, k: int| 0 <= j < k < records.len() implies (
    #[trigger] records[j]).session_id != (#[trigger] records[k]).session_id by {
        assert(records[j] == record_of(list[j]) && records[k] == record_of(list[k]));
        if list[j].session_id == list[k].session_id {
            assert(list[j] == list[k]);
            lemma_not_before_itself(list[j]);
        }
    }
}

/// After a report that gives a status, the answer to a request for the state holds
/// exactly one record whose id is that of the report, and it carries what was
/// reported.
pub proof fn law_reported_session_is_answered(
    m: Map<Seq<char>, InstanceView>,
    r: ReportView,
    now: nat,
)
    requires
        gives_status(r),
        is_listing(next_instances(m, r, now), listing_of(next_instances(m, r, now))),
    ensures
        ({
            let records = state_records(next_instances(m, r, now));
            exists|k: int|
                0 <= k < records.len() && {
                    &&& (#[trigger] records[k]).session_id == r.session_id
                    &&& records[k].status == status_given(r).name()
                    &&& r.cwd.len() > 0 ==> records[k].cwd == Some(r.cwd)
                    &&& r.zellij_session.len() > 0 ==> records[k].zellij_session == Some(
                        r.zellij_session,
                    )
                    &&& records[k].zellij_pane == r.zellij_pane
                    &&& records[k].updated_at == now
                    &&& forall|j: int|
                        0 <= j < records.len() && j != k ==> (#[trigger] records[j]).session_id
                            != r.session_id
                }
        }),
{
    let next = next_instances(m, r, now);
    let records = state_records(next);
    law_report_is_tracked(m, r, now);
    law_answer_is_what_is_tracked(next, r.session_id);
    let k = choose|k: int|
        0 <= k < records.len() && #[trigger] records[k] == record_of(next[r.session_id]);
    assert(records[k].session_id == r.session_id);
    assert forall|j: int| 0 <= j < records.len() && j != k implies (
    #[trigger] records[j]).session_id != r.session_id by {
        if j < k {
            assert(records[j].session_id != records[k].session_id);
        } else {
            assert(records[k].session_id != records[j].session_id);
        }
    }
}

/// What the command of a sound finds in its environment: the status to which the
/// session came, its id and its place, the pane in digits or empty.
pub proof fn law_sound_environment(state: AppStateView, r: ReportView)
    requires
        report_sound(state, r) is Some,
    ensures
        ({
            let env = report_sound(state, r)->0.env;
            &&& env.len() == 4
            &&& env[0].0 == "CLAUDE_MONITOR_STATUS"@
            &&& status_given(r) == Status::Idle ==> env[0].1 == "idle"@
            &&& status_given(r) == Status::Waiting ==> env[0].1 == "waiting"@
            &&& env[1] == ("CLAUDE_MONITOR_SESSION_ID"@, r.session_id)
            &&& env[2] == ("CLAUDE_MONITOR_ZELLIJ_SESSION"@, r.zellij_session)
            &&& env[3].0 == "CLAUDE_MONITOR_ZELLIJ_PANE"@
            &&& r.zellij_pane is None ==> env[3].1.len() == 0
            &&& r.zellij_pane is Some ==> env[3].1 == decimal_text(r.zellij_pane->0 as nat)
        }),
{
}

/// What the log says of a report: that it was ignored, and whether for want of an
/// id; that the session was removed; or the status that it gave, with a mark
/// exactly where the session worked before and halts now.
pub proof fn law_outcome_in_the_log(m: Map<Seq<char>, InstanceView>, r: ReportView)
    ensures
        r.session_id.len() == 0 ==> report_outcome(m, r) == "ignored (no session_id)"@,
        r.session_id.len() > 0 && event_action(r.event, r.tool_name) == Action::Ignore
            ==> report_outcome(m, r) == "ignored"@,
        r.session_id.len() > 0 && event_action(r.event, r.tool_name) == Action::Remove
            ==> report_outcome(m, r) == "removed"@,
        gives_status(r) ==> report_outcome(m, r) == (if is_working(m, r.session_id)
            && status_given(r) != Status::Working {
            status_given(r).name() + " [SOUND]"@
        } else {
            status_given(r).name()
        }),
        halts(m, r) <==> gives_status(r) && is_working(m, r.session_id) && status_given(r)
            != Status::Working,
{
}

/// The log calls a session by the start of its id, and by a dash without one.
pub proof fn law_id_in_the_log(r: ReportView)
    ensures
        r.session_id.len() == 0 ==> log_id(r) == "-"@,
        r.session_id.len() > 0 ==> log_id(r).is_prefix_of(r.session_id) && log_id(r).len() == (
        if r.session_id.len() < 8 {
            r.session_id.len()
        } else {
            8
        }),
{
    law_short_id_is_prefix(r.session_id);
}

/// What stands where in a line of the log: the time in brackets; the event in
/// sixteen columns and the id in eight, or more where they are longer; the Zellij
/// session, a dash without one; the outcome at the end.
pub proof fn law_line_of_the_log(
    time: Seq<char>,
    event: Seq<char>,
    id: Seq<char>,
    zellij_session: Seq<char>,
    outcome: Seq<char>,
)
    ensures
        ({
            let line = log_text(time, event, id, zellij_session, outcome);
            let w: int = if event.len() < 16 { 16 } else { event.len() as int };
            let v: int = if id.len() < 8 { 8 } else { id.len() as int };
            let z: int = if zellij_session.len() == 0 { 1 } else { zellij_session.len() as int };
            let e = 16 + time.len() as int;
            let i = e + w + 4;
            let s = i + v + 8;
            let o = s + z + 4;
            &&& line.len() == o + outcome.len()
            &&& line[0] == '['
            &&& line.subrange(1, 1 + time.len() as int) == time
            &&& line.subrange(1 + time.len() as int, e) == "] report event="@
            &&& line.subrange(e, e + event.len() as int) == event
            &&& forall|k: int| e + event.len() <= k < e + w ==> #[trigger] line[k] == ' '
            &&& line.subrange(e + w, i) == " id="@
            &&& line.subrange(i, i + id.len() as int) == id
            &&& forall|k: int| i + id.len() <= k < i + v ==> #[trigger] line[k] == ' '
            &&& line.subrange(i + v, s) == " zellij="@
            &&& zellij_session.len() == 0 ==> line[s] == '-'
            &&& zellij_session.len() > 0 ==> line.subrange(s, s + z) == zellij_session
            &&& line.subrange(s + z, o) == " -> "@
            &&& line.skip(o) == outcome
        }),
{
    reveal_strlit("[");
    reveal_strlit("] report event=");
    reveal_strlit(" id=");
    reveal_strlit(" zellij=");
    reveal_strlit(" -> ");
    reveal_strlit("-");
    assert("["@.len() == 1 && "] report event="@.len() == 15 && " id="@.len() == 4);
    assert(" zellij="@.len() == 8 && " -> "@.len() == 4 && "-"@.len() == 1);
    assert("["@[0] == '[' && "-"@[0] == '-');
}

/// The records of the answer come by Zellij session, then by pane with none before
/// any, then by id.
pub proof fn law_answer_in_order(m: Map<Seq<char>, InstanceView>, j: int, k: int)
    requires
        is_listing(m, listing_of(m)),
        0 <= j < k < state_records(m).len(),
    ensures
        ({
            let a = m[state_records(m)[j].session_id];
            let b = m[state_records(m)[k].session_id];
            ||| text_order(a.zellij_session, b.zellij_session) == Order::Less
            ||| a.zellij_session == b.zellij_session && a.zellij_pane is None
                && b.zellij_pane is Some
            ||| a.zellij_session == b.zellij_session && a.zellij_pane is Some
                && b.zellij_pane is Some && a.zellij_pane->0 < b.zellij_pane->0
            ||| a.zellij_session == b.zellij_session && a.zellij_pane == b.zellij_pane
                && text_order(a.session_id, b.session_id) == Order::Less
        }),
{
    let list = listing_of(m);
    assert(m[list[j].session_id] == list[j]);
    assert(m[list[k].session_id] == list[k]);
    law_listing_ascends(m, list, j, k);
}

} // verus!
