//! What hook events mean for a session.

use crate::text::same_text;
use vstd::prelude::*;

verus! {

/// What a session is doing.
#[derive(Clone, Copy, Debug, PartialEq, Eq, Structural)]
pub enum Status {
    /// It waits for a prompt.
    Idle,
    /// It is busy.
    Working,
    /// It needs the user to answer something.
    Waiting,
}

impl Status {
    /// The name of the status.
    pub open spec fn name(self) -> Seq<char> {
        match self {
            Status::Idle => "idle"@,
            Status::Working => "working"@,
            Status::Waiting => "waiting"@,
        }
    }

    /// The name of the status.
    pub fn as_str(&self) -> (s: &'static str)
        ensures
            s@ == self.name(),
    {
        match self {
            Status::Idle => "idle",
            Status::Working => "working",
            Status::Waiting => "waiting",
        }
    }
}

/// What a hook event does to the session it reports.
#[derive(Clone, Copy, Debug, PartialEq, Eq, Structural)]
pub enum Action {
    /// The session has this status now.
    Become(Status),
    /// The session is over.
    Remove,
    /// The event says nothing about the status.
    Ignore,
}

/// Tools that block on the user the moment they are invoked.
pub open spec fn input_tool(tool_name: Seq<char>) -> bool {
    tool_name == "AskUserQuestion"@ || tool_name == "ExitPlanMode"@
}

/// Whether a tool blocks on the user the moment it is invoked, so that its
/// `PreToolUse` means waiting for input rather than working.
pub fn is_input_tool(tool_name: &str) -> (b: bool)
    ensures
        b == input_tool(tool_name@),
{
    same_text(tool_name, "AskUserQuestion") || same_text(tool_name, "ExitPlanMode")
}

/// What an event does, given the tool it names.
pub open spec fn event_action(event: Seq<char>, tool_name: Seq<char>) -> Action {
    if event == "SessionStart"@ || event == "Stop"@ || event == "SubagentStop"@ {
        Action::Become(Status::Idle)
    } else if event == "UserPromptSubmit"@ || event == "PostToolUse"@ {
        Action::Become(Status::Working)
    } else if event == "PreToolUse"@ {
        if input_tool(tool_name) {
            Action::Become(Status::Waiting)
        } else {
            Action::Become(Status::Working)
        }
    } else if event == "PermissionRequest"@ || event == "Elicitation"@ {
        Action::Become(Status::Waiting)
    } else if event == "SessionEnd"@ {
        Action::Remove
    } else {
        Action::Ignore
    }
}

/// What an event does, given the tool it names. A permission dialog and an
/// elicitation wait for the user from the moment they appear; `Notification`
/// comes late and says nothing.
pub fn action_for(event: &str, tool_name: &str) -> (action: Action)
    ensures
        action == event_action(event@, tool_name@),
{
    if same_text(event, "SessionStart") || same_text(event, "Stop") || same_text(
        event,
        "SubagentStop",
    ) {
        Action::Become(Status::Idle)
    } else if same_text(event, "UserPromptSubmit") || same_text(event, "PostToolUse") {
        Action::Become(Status::Working)
    } else if same_text(event, "PreToolUse") {
        if is_input_tool(tool_name) {
            Action::Become(Status::Waiting)
        } else {
            Action::Become(Status::Working)
        }
    } else if same_text(event, "PermissionRequest") || same_text(event, "Elicitation") {
        Action::Become(Status::Waiting)
    } else if same_text(event, "SessionEnd") {
        Action::Remove
    } else {
        Action::Ignore
    }
}

/// The names of the three statuses.
pub proof fn law_status_names()
    ensures
        Status::Idle.name() == "idle"@,
        Status::Working.name() == "working"@,
        Status::Waiting.name() == "waiting"@,
{
}

/// Every event but the nine that mean something is ignored, whatever the tool.
pub proof fn law_other_events_ignored(event: Seq<char>, tool: Seq<char>)
    requires
        event != "SessionStart"@,
        event != "Stop"@,
        event != "SubagentStop"@,
        event != "UserPromptSubmit"@,
        event != "PostToolUse"@,
        event != "PreToolUse"@,
        event != "PermissionRequest"@,
        event != "Elicitation"@,
        event != "SessionEnd"@,
    ensures
        event_action(event, tool) == Action::Ignore,
{
}

} // verus!
