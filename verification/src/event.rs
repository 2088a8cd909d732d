//! What the host reports, and what it is asked to do.

use std::collections::BTreeMap;

use vstd::prelude::*;

use crate::session::{SessionInfo, SessionView};
use crate::settings::Settings;
use crate::tab_pane_map::{PaneManifest, PaneView, TabInfo, TabView};

verus! {

/// The host's input mode.
#[derive(Clone, Copy, Debug, PartialEq, Eq, Structural)]
pub enum InputMode {
    Normal,
    Locked,
    Resize,
    Pane,
    Tab,
    Scroll,
    EnterSearch,
    Search,
    RenameTab,
    RenamePane,
    Session,
    Move,
    Prompt,
    Tmux,
}

/// The time of day at which an event is handled.
#[derive(Clone, Copy, Debug, PartialEq, Eq, Structural)]
pub struct Clock {
    pub secs: u64,
    pub millis: u64,
}

/// Something that happened.
#[derive(Debug)]
pub enum Event {
    TabUpdate(Vec<TabInfo>),
    PaneUpdate(PaneManifest),
    ModeUpdate { mode: InputMode, session_name: Option<String> },
    /// A left click in the given column.
    LeftClick(usize),
    /// A command has finished. `command` is the `type` that it was run under, and
    /// `settings` what its output reads as, if it reads as settings.
    RunCommandResult {
        exit_code: Option<i32>,
        command: Option<String>,
        settings: Option<Settings>,
    },
    Timer,
    PermissionRequestResult,
    Other,
}

/// An [`Event`], its contents taken by their views.
pub enum EventView {
    TabUpdate(Seq<TabView>),
    PaneUpdate(Map<usize, Seq<PaneView>>),
    ModeUpdate { mode: InputMode, session_name: Option<Seq<char>> },
    LeftClick(usize),
    RunCommandResult {
        exit_code: Option<i32>,
        command: Option<Seq<char>>,
        settings: Option<Settings>,
    },
    Timer,
    PermissionRequestResult,
    Other,
}

impl View for Event {
    type V = EventView;

    open spec fn view(&self) -> EventView {
        match *self {
            Event::TabUpdate(tabs) => EventView::TabUpdate(crate::tab_pane_map::tabs_view(tabs@)),
            Event::PaneUpdate(manifest) => EventView::PaneUpdate(manifest@),
            Event::ModeUpdate { mode, session_name } => EventView::ModeUpdate {
                mode,
                session_name: crate::session::text_view(session_name),
            },
            Event::LeftClick(col) => EventView::LeftClick(col),
            Event::RunCommandResult { exit_code, command, settings } => EventView::RunCommandResult {
                exit_code,
                command: crate::session::text_view(command),
                settings,
            },
            Event::Timer => EventView::Timer,
            Event::PermissionRequestResult => EventView::PermissionRequestResult,
            Event::Other => EventView::Other,
        }
    }
}

/// How soon the next timer event is wanted.
#[derive(Clone, Copy, Debug, PartialEq, Eq, Structural)]
pub enum Tick {
    /// At the usual pace.
    Normal,
    /// Soon enough to animate a flash.
    Flash,
}

/// Something for the host to do.
#[derive(Debug, PartialEq, Eq)]
pub enum Action {
    /// Focus the terminal pane with the given id.
    FocusPane(u32),
    /// Go to the tab with the given one-based number.
    SwitchTab(u32),
    /// Rename the tab with the given one-based number.
    RenameTab { tab: u32, name: String },
    /// Run the command that prints the settings file.
    LoadConfig,
    /// Send these settings to the other instances.
    BroadcastSettings(Settings),
    /// Run the command that writes these settings to the settings file.
    SaveConfig(Settings),
    /// Send these sessions to the other instances.
    BroadcastSessions(BTreeMap<u32, SessionInfo>),
    /// Ask the other instances for their sessions.
    RequestSync,
    /// Install the hook script.
    InstallHooks,
    /// Whether the plugin's pane can be selected.
    SetSelectable(bool),
    SetTimeout(Tick),
    /// Handle the hook event that came in.
    HandleHook,
}

/// An [`Action`], its contents taken by their views.
pub enum ActionView {
    FocusPane(u32),
    SwitchTab(u32),
    RenameTab { tab: u32, name: Seq<char> },
    LoadConfig,
    BroadcastSettings(Settings),
    SaveConfig(Settings),
    BroadcastSessions(Map<u32, SessionView>),
    RequestSync,
    InstallHooks,
    SetSelectable(bool),
    SetTimeout(Tick),
    HandleHook,
}

impl View for Action {
    type V = ActionView;

    open spec fn view(&self) -> ActionView {
        match *self {
            Action::FocusPane(id) => ActionView::FocusPane(id),
            Action::SwitchTab(tab) => ActionView::SwitchTab(tab),
            Action::RenameTab { tab, name } => ActionView::RenameTab { tab, name: name@ },
            Action::LoadConfig => ActionView::LoadConfig,
            Action::BroadcastSettings(settings) => ActionView::BroadcastSettings(settings),
            Action::SaveConfig(settings) => ActionView::SaveConfig(settings),
            Action::BroadcastSessions(sessions) => ActionView::BroadcastSessions(
                crate::session::sessions_view(sessions@),
            ),
            Action::RequestSync => ActionView::RequestSync,
            Action::InstallHooks => ActionView::InstallHooks,
            Action::SetSelectable(yes) => ActionView::SetSelectable(yes),
            Action::SetTimeout(tick) => ActionView::SetTimeout(tick),
            Action::HandleHook => ActionView::HandleHook,
        }
    }
}

/// Actions, each taken by its view.
pub open spec fn actions_view(actions: Seq<Action>) -> Seq<ActionView> {
    actions.map_values(|a: Action| a@)
}

/// What came of an event: what to do, in order, and whether to draw the bar again.
#[derive(Debug, PartialEq, Eq)]
pub struct Outcome {
    pub actions: Vec<Action>,
    pub render: bool,
}

/// An [`Outcome`], its actions taken by their views.
#[verifier::ext_equal]
pub struct OutcomeView {
    pub actions: Seq<ActionView>,
    pub render: bool,
}

impl View for Outcome {
    type V = OutcomeView;

    open spec fn view(&self) -> OutcomeView {
        OutcomeView { actions: actions_view(self.actions@), render: self.render }
    }
}

/// What came with a pipe message.
#[derive(Debug)]
pub enum PipePayload {
    /// Nothing.
    Absent,
    /// Text that was not read as anything else.
    Text(String),
    /// Text that reads as a hook event.
    Hook,
    /// Text that reads as settings.
    Settings(Settings),
    /// Text that reads as another instance's sessions.
    Sessions(BTreeMap<u32, SessionInfo>),
}

/// A [`PipePayload`], its contents taken by their views.
pub enum PayloadView {
    Absent,
    Text(Seq<char>),
    Hook,
    Settings(Settings),
    Sessions(Map<u32, SessionView>),
}

impl View for PipePayload {
    type V = PayloadView;

    open spec fn view(&self) -> PayloadView {
        match *self {
            PipePayload::Absent => PayloadView::Absent,
            PipePayload::Text(text) => PayloadView::Text(text@),
            PipePayload::Hook => PayloadView::Hook,
            PipePayload::Settings(settings) => PayloadView::Settings(settings),
            PipePayload::Sessions(sessions) => PayloadView::Sessions(
                crate::session::sessions_view(sessions@),
            ),
        }
    }
}

/// What a pipe message is about.
#[derive(Clone, Copy, Debug, PartialEq, Eq, Structural)]
pub enum PipeTopic {
    /// A hook event, as sent from the command line.
    Hook,
    /// A click on a notification: focus the pane with the given id.
    Focus,
    /// Another instance asks for the sessions.
    Request,
    /// Another instance sends its settings.
    Settings,
    /// Another instance sends its sessions.
    Sync,
    /// Something else.
    Unknown,
}

/// What a pipe message with the given name is about.
pub open spec fn topic_of(name: Seq<char>) -> PipeTopic {
    if name == "zellaude"@ {
        PipeTopic::Hook
    } else if name == "zellaude:focus"@ {
        PipeTopic::Focus
    } else if name == "zellaude:request"@ {
        PipeTopic::Request
    } else if name == "zellaude:settings"@ {
        PipeTopic::Settings
    } else if name == "zellaude:sync"@ {
        PipeTopic::Sync
    } else {
        PipeTopic::Unknown
    }
}

/// What a pipe message with the given name is about, and so what its payload is to
/// be read as.
pub fn pipe_topic(name: &str) -> (topic: PipeTopic)
    ensures
        topic == topic_of(name@),
{
    if *name == *"zellaude" {
        PipeTopic::Hook
    } else if *name == *"zellaude:focus" {
        PipeTopic::Focus
    } else if *name == *"zellaude:request" {
        PipeTopic::Request
    } else if *name == *"zellaude:settings" {
        PipeTopic::Settings
    } else if *name == *"zellaude:sync" {
        PipeTopic::Sync
    } else {
        PipeTopic::Unknown
    }
}

/// What the names of pipe messages stand for; any other name stands for nothing.
pub proof fn law_messages_are_told_by_their_names(name: Seq<char>)
    ensures
        topic_of("zellaude"@) == PipeTopic::Hook,
        topic_of("zellaude:focus"@) == PipeTopic::Focus,
        topic_of("zellaude:request"@) == PipeTopic::Request,
        topic_of("zellaude:settings"@) == PipeTopic::Settings,
        topic_of("zellaude:sync"@) == PipeTopic::Sync,
        name != "zellaude"@ && name != "zellaude:focus"@ && name != "zellaude:request"@ && name
            != "zellaude:settings"@ && name != "zellaude:sync"@ ==> topic_of(name)
            == PipeTopic::Unknown,
{
    reveal_strlit("zellaude");
    reveal_strlit("zellaude:focus");
    reveal_strlit("zellaude:request");
    reveal_strlit("zellaude:settings");
    reveal_strlit("zellaude:sync");
    assert("zellaude"@.len() == 8);
    assert("zellaude:focus"@.len() == 14);
    assert("zellaude:request"@.len() == 16);
    assert("zellaude:settings"@.len() == 17);
    assert("zellaude:sync"@.len() == 13);
}

/// The view of an action leaves nothing out, and actions stay in order.
pub proof fn law_action_views_are_faithful(actions: Seq<Action>, i: int)
    ensures
        actions_view(actions).len() == actions.len(),
        0 <= i < actions.len() ==> match actions[i] {
            Action::FocusPane(id) => actions_view(actions)[i] == ActionView::FocusPane(id),
            Action::SwitchTab(tab) => actions_view(actions)[i] == ActionView::SwitchTab(tab),
            Action::RenameTab { tab, name } => actions_view(actions)[i] == (ActionView::RenameTab {
                tab,
                name: name@,
            }),
            Action::LoadConfig => actions_view(actions)[i] == ActionView::LoadConfig,
            Action::BroadcastSettings(settings) => actions_view(actions)[i]
                == ActionView::BroadcastSettings(settings),
            Action::SaveConfig(settings) => actions_view(actions)[i] == ActionView::SaveConfig(
                settings,
            ),
            Action::BroadcastSessions(sessions) => actions_view(actions)[i]
                == ActionView::BroadcastSessions(crate::session::sessions_view(sessions@)),
            Action::RequestSync => actions_view(actions)[i] == ActionView::RequestSync,
            Action::InstallHooks => actions_view(actions)[i] == ActionView::InstallHooks,
            Action::SetSelectable(yes) => actions_view(actions)[i] == ActionView::SetSelectable(
                yes,
            ),
            Action::SetTimeout(tick) => actions_view(actions)[i] == ActionView::SetTimeout(tick),
            Action::HandleHook => actions_view(actions)[i] == ActionView::HandleHook,
        },
{
}

/// The view of an event leaves nothing out.
pub proof fn law_event_views_are_faithful(event: Event)
    ensures
        match event {
            Event::TabUpdate(tabs) => event@ == EventView::TabUpdate(
                crate::tab_pane_map::tabs_view(tabs@),
            ),
            Event::PaneUpdate(manifest) => event@ == EventView::PaneUpdate(manifest@),
            Event::ModeUpdate { mode, session_name } => event@ matches EventView::ModeUpdate {
                mode: m,
                session_name: n,
            } && m == mode && (session_name is Some ==> n == Some(session_name->0@)) && (
            session_name is None ==> n is None),
            Event::LeftClick(col) => event@ == EventView::LeftClick(col),
            Event::RunCommandResult {
                exit_code,
                command,
                settings,
            } => event@ matches EventView::RunCommandResult {
                exit_code: e,
                command: c,
                settings: s,
            } && e == exit_code && s == settings && (command is Some ==> c == Some(command->0@))
                && (command is None ==> c is None),
            Event::Timer => event@ == EventView::Timer,
            Event::PermissionRequestResult => event@ == EventView::PermissionRequestResult,
            Event::Other => event@ == EventView::Other,
        },
{
}

/// The view of what came with a message leaves nothing out.
pub proof fn law_payload_views_are_faithful(payload: PipePayload)
    ensures
        match payload {
            PipePayload::Absent => payload@ == PayloadView::Absent,
            PipePayload::Text(text) => payload@ == PayloadView::Text(text@),
            PipePayload::Hook => payload@ == PayloadView::Hook,
            PipePayload::Settings(settings) => payload@ == PayloadView::Settings(settings),
            PipePayload::Sessions(sessions) => payload@ == PayloadView::Sessions(
                crate::session::sessions_view(sessions@),
            ),
        },
{
}

} // verus!
