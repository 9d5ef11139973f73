//! What the settings show of a tool.

use vstd::prelude::*;

verus! {

/// A switch that a tool hangs on. While it is off, the model does not get the tool.
#[derive(Debug, Clone, Copy, PartialEq, Eq, Structural)]
pub enum ToolGate {
    Web,
    Python,
    Fs,
    /// The tools of plugin servers.
    Mcp,
    /// Runs that outlive the turn.
    Background,
}

/// What a tool is about. The order is that in which groups are shown.
#[derive(Debug, Clone, Copy, PartialEq, Eq, PartialOrd, Ord, Structural)]
pub enum ToolGroup {
    Introspection,
    Memory,
    ExternalWorld,
    Files,
    Utils,
    Subagent,
    Conversation,
    SelfModel,
    /// The tools of plugin servers.
    Plugins,
}

/// Every group, in the order they are shown in.
pub const GROUPS: [ToolGroup; 9] = [
    ToolGroup::Introspection,
    ToolGroup::Memory,
    ToolGroup::ExternalWorld,
    ToolGroup::Files,
    ToolGroup::Utils,
    ToolGroup::Subagent,
    ToolGroup::Conversation,
    ToolGroup::SelfModel,
    ToolGroup::Plugins,
];

impl ToolGroup {
    pub open spec fn title_text(self) -> Seq<char> {
        match self {
            ToolGroup::Introspection => "Introspection"@,
            ToolGroup::Memory => "Memory and knowledge"@,
            ToolGroup::ExternalWorld => "External world"@,
            ToolGroup::Files => "Files"@,
            ToolGroup::Utils => "Utilities"@,
            ToolGroup::Subagent => "Subagent"@,
            ToolGroup::Conversation => "Conversation control"@,
            ToolGroup::SelfModel => "Self-model"@,
            ToolGroup::Plugins => "Plugins (MCP)"@,
        }
    }

    pub open spec fn key_text(self) -> Seq<char> {
        match self {
            ToolGroup::Introspection => "ui.tool.group.introspection"@,
            ToolGroup::Memory => "ui.tool.group.memory"@,
            ToolGroup::ExternalWorld => "ui.tool.group.external_world"@,
            ToolGroup::Files => "ui.tool.group.files"@,
            ToolGroup::Utils => "ui.tool.group.utils"@,
            ToolGroup::Subagent => "ui.tool.group.subagent"@,
            ToolGroup::Conversation => "ui.tool.group.conversation"@,
            ToolGroup::SelfModel => "ui.tool.group.self_model"@,
            ToolGroup::Plugins => "ui.tool.group.plugins"@,
        }
    }

    /// The key of the group's heading.
    pub fn i18n_key(&self) -> (r: &'static str)
        ensures
            r@ == self.key_text(),
    {
        match self {
            ToolGroup::Introspection => "ui.tool.group.introspection",
            ToolGroup::Memory => "ui.tool.group.memory",
            ToolGroup::ExternalWorld => "ui.tool.group.external_world",
            ToolGroup::Files => "ui.tool.group.files",
            ToolGroup::Utils => "ui.tool.group.utils",
            ToolGroup::Subagent => "ui.tool.group.subagent",
            ToolGroup::Conversation => "ui.tool.group.conversation",
            ToolGroup::SelfModel => "ui.tool.group.self_model",
            ToolGroup::Plugins => "ui.tool.group.plugins",
        }
    }

    /// The group's heading where no language is at hand.
    pub fn title(&self) -> (r: &'static str)
        ensures
            r@ == self.title_text(),
    {
        match self {
            ToolGroup::Introspection => "Introspection",
            ToolGroup::Memory => "Memory and knowledge",
            ToolGroup::ExternalWorld => "External world",
            ToolGroup::Files => "Files",
            ToolGroup::Utils => "Utilities",
            ToolGroup::Subagent => "Subagent",
            ToolGroup::Conversation => "Conversation control",
            ToolGroup::SelfModel => "Self-model",
            ToolGroup::Plugins => "Plugins (MCP)",
        }
    }
}

/// The headings of all groups, in the order they are shown in.
pub fn group_titles() -> (r: [&'static str; 9])
    ensures
        forall|i: int| 0 <= i < 9 ==> (#[trigger] r@[i])@ == GROUPS@[i].title_text(),
{
    [
        ToolGroup::Introspection.title(),
        ToolGroup::Memory.title(),
        ToolGroup::ExternalWorld.title(),
        ToolGroup::Files.title(),
        ToolGroup::Utils.title(),
        ToolGroup::Subagent.title(),
        ToolGroup::Conversation.title(),
        ToolGroup::SelfModel.title(),
        ToolGroup::Plugins.title(),
    ]
}

/// What the settings show of one tool.
#[derive(Debug)]
pub struct ToolInfo {
    pub id: String,
    pub group: ToolGroup,
    pub label: String,
    pub gate: Option<ToolGate>,
    pub enabled_by_default: bool,
    /// What a plugin server says of its tool; nothing for our own.
    pub description: Option<String>,
}

} // verus!
