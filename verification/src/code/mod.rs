//! The tools over the project that is attached to a chat: listing, reading,
//! searching and changing its files, and running the command lines that the
//! user put into its three slots.
//!
//! - Without a project the tools are not offered; a command tool also needs a
//!   line in its slot.
//! - Lines are shown as `    12→text`, which is what the model quotes back.
//! - A file keeps its line ends and its byte order mark when it is changed.
//! - The model never writes a command: the three command tools take no argument.

use vstd::prelude::*;
use crate::text;

pub mod change;
pub mod command;
pub mod file;
pub mod grep;
pub mod laws;
pub mod look;
pub mod paths;

verus! {

pub const CODE_LIST_ID: &'static str = "code_list";

pub const CODE_READ_ID: &'static str = "code_read";

pub const CODE_GREP_ID: &'static str = "code_grep";

pub const CODE_EDIT_ID: &'static str = "code_edit";

pub const CODE_WRITE_ID: &'static str = "code_write";

pub const CODE_BUILD_ID: &'static str = "code_build";

pub const CODE_RUN_ID: &'static str = "code_run";

pub const CODE_TEST_ID: &'static str = "code_test";

/// The whole family.
pub const WORKSPACE_TOOL_IDS: [&'static str; 8] = [
    CODE_LIST_ID,
    CODE_READ_ID,
    CODE_GREP_ID,
    CODE_EDIT_ID,
    CODE_WRITE_ID,
    CODE_BUILD_ID,
    CODE_RUN_ID,
    CODE_TEST_ID,
];

/// A command line that a project can carry.
#[derive(Debug, Clone, Copy, PartialEq, Eq, Structural)]
pub enum CommandSlot {
    Build,
    Run,
    Test,
}

impl CommandSlot {
    pub open spec fn key_spec(self) -> Seq<char> {
        match self {
            CommandSlot::Build => "build"@,
            CommandSlot::Run => "run"@,
            CommandSlot::Test => "test"@,
        }
    }

    /// The slot's name.
    pub fn key(self) -> (r: &'static str)
        ensures
            r@ == self.key_spec(),
    {
        match self {
            CommandSlot::Build => "build",
            CommandSlot::Run => "run",
            CommandSlot::Test => "test",
        }
    }

    /// The command by which the user fills the slot.
    pub fn setter_command(self) -> (r: String)
        ensures
            r@ == "/project "@ + self.key_spec() + "-cmd"@,
    {
        text::cat3("/project ", self.key(), "-cmd")
    }
}

/// A project attached to a chat: its directory and its command lines.
#[derive(Debug)]
pub struct Workspace {
    pub root: String,
    pub build: Option<String>,
    pub run: Option<String>,
    pub test: Option<String>,
}

impl Workspace {
    pub open spec fn line(self, slot: CommandSlot) -> Option<String> {
        match slot {
            CommandSlot::Build => self.build,
            CommandSlot::Run => self.run,
            CommandSlot::Test => self.test,
        }
    }

    /// The line in `slot`, where one was put there.
    pub fn command(&self, slot: CommandSlot) -> (r: Option<&String>)
        ensures
            match r {
                Some(l) => self.line(slot) == Some(*l),
                None => self.line(slot) is None,
            },
    {
        match slot {
            CommandSlot::Build => self.build.as_ref(),
            CommandSlot::Run => self.run.as_ref(),
            CommandSlot::Test => self.test.as_ref(),
        }
    }
}

/// Which of the project's slots carry a line.
#[derive(Debug, Clone, Copy, PartialEq, Eq, Structural)]
pub struct WorkspaceCommands {
    pub build: bool,
    pub run: bool,
    pub test: bool,
}

impl Default for WorkspaceCommands {
    fn default() -> (r: Self)
        ensures
            !r.build && !r.run && !r.test,
    {
        WorkspaceCommands { build: false, run: false, test: false }
    }
}

impl WorkspaceCommands {
    pub open spec fn filled(self, slot: CommandSlot) -> bool {
        match slot {
            CommandSlot::Build => self.build,
            CommandSlot::Run => self.run,
            CommandSlot::Test => self.test,
        }
    }

    /// The slots that the project has lines for.
    pub fn of(ws: &Workspace) -> (r: Self)
        ensures
            forall|slot: CommandSlot| #[trigger] r.filled(slot) == ws.line(slot).is_some(),
    {
        WorkspaceCommands {
            build: ws.command(CommandSlot::Build).is_some(),
            run: ws.command(CommandSlot::Run).is_some(),
            test: ws.command(CommandSlot::Test).is_some(),
        }
    }

    /// Whether `slot` carries a line.
    pub fn has(self, slot: CommandSlot) -> (r: bool)
        ensures
            r == self.filled(slot),
    {
        match slot {
            CommandSlot::Build => self.build,
            CommandSlot::Run => self.run,
            CommandSlot::Test => self.test,
        }
    }
}

/// `id` is one of the family.
pub open spec fn in_family(id: Seq<char>) -> bool {
    exists|i: int| 0 <= i < WORKSPACE_TOOL_IDS@.len() && (#[trigger] WORKSPACE_TOOL_IDS@[i])@ == id
}

/// Whether `id` is one of the family.
pub fn is_workspace_tool(id: &str) -> (r: bool)
    ensures
        r == in_family(id@),
{
    let mut i: usize = 0;
    while i < WORKSPACE_TOOL_IDS.len()
        invariant
            i <= WORKSPACE_TOOL_IDS@.len(),
            forall|j: int| 0 <= j < i ==> (#[trigger] WORKSPACE_TOOL_IDS@[j])@ != id@,
        decreases WORKSPACE_TOOL_IDS@.len() - i,
    {
        if text::same(WORKSPACE_TOOL_IDS[i], id) {
            assert(WORKSPACE_TOOL_IDS@[i as int]@ == id@);
            return true;
        }
        i = i + 1;
    }
    false
}

/// One tool of the family.
#[derive(Debug, Clone, Copy, PartialEq, Eq, Structural)]
pub enum CodeTool {
    List,
    Read,
    Grep,
    Edit,
    Write,
    /// `code_build`, `code_run` or `code_test`: they differ in the slot alone.
    Command(CommandSlot),
}

impl CodeTool {
    pub open spec fn id_spec(self) -> Seq<char> {
        match self {
            CodeTool::List => CODE_LIST_ID@,
            CodeTool::Read => CODE_READ_ID@,
            CodeTool::Grep => CODE_GREP_ID@,
            CodeTool::Edit => CODE_EDIT_ID@,
            CodeTool::Write => CODE_WRITE_ID@,
            CodeTool::Command(CommandSlot::Build) => CODE_BUILD_ID@,
            CodeTool::Command(CommandSlot::Run) => CODE_RUN_ID@,
            CodeTool::Command(CommandSlot::Test) => CODE_TEST_ID@,
        }
    }

    /// The id the model calls it by.
    pub fn id(self) -> (r: &'static str)
        ensures
            r@ == self.id_spec(),
    {
        match self {
            CodeTool::List => CODE_LIST_ID,
            CodeTool::Read => CODE_READ_ID,
            CodeTool::Grep => CODE_GREP_ID,
            CodeTool::Edit => CODE_EDIT_ID,
            CodeTool::Write => CODE_WRITE_ID,
            CodeTool::Command(CommandSlot::Build) => CODE_BUILD_ID,
            CodeTool::Command(CommandSlot::Run) => CODE_RUN_ID,
            CodeTool::Command(CommandSlot::Test) => CODE_TEST_ID,
        }
    }

    /// The tool that `id` names.
    pub fn from_id(id: &str) -> (r: Option<Self>)
        ensures
            match r {
                Some(t) => t.id_spec() == id@,
                None => forall|t: CodeTool| (#[trigger] t.id_spec()) != id@,
            },
    {
        if text::same(id, CODE_LIST_ID) {
            Some(CodeTool::List)
        } else if text::same(id, CODE_READ_ID) {
            Some(CodeTool::Read)
        } else if text::same(id, CODE_GREP_ID) {
            Some(CodeTool::Grep)
        } else if text::same(id, CODE_EDIT_ID) {
            Some(CodeTool::Edit)
        } else if text::same(id, CODE_WRITE_ID) {
            Some(CodeTool::Write)
        } else if text::same(id, CODE_BUILD_ID) {
            Some(CodeTool::Command(CommandSlot::Build))
        } else if text::same(id, CODE_RUN_ID) {
            Some(CodeTool::Command(CommandSlot::Run))
        } else if text::same(id, CODE_TEST_ID) {
            Some(CodeTool::Command(CommandSlot::Test))
        } else {
            None
        }
    }

    /// The label of the profile's switch.
    pub fn label(self) -> (r: &'static str)
        ensures
            r@ == match self {
                CodeTool::List => "list project files"@,
                CodeTool::Read => "read project file"@,
                CodeTool::Grep => "search project"@,
                CodeTool::Edit => "edit project file"@,
                CodeTool::Write => "write project file"@,
                CodeTool::Command(CommandSlot::Build) => "build the project"@,
                CodeTool::Command(CommandSlot::Run) => "run the project"@,
                CodeTool::Command(CommandSlot::Test) => "test the project"@,
            },
    {
        match self {
            CodeTool::List => "list project files",
            CodeTool::Read => "read project file",
            CodeTool::Grep => "search project",
            CodeTool::Edit => "edit project file",
            CodeTool::Write => "write project file",
            CodeTool::Command(CommandSlot::Build) => "build the project",
            CodeTool::Command(CommandSlot::Run) => "run the project",
            CodeTool::Command(CommandSlot::Test) => "test the project",
        }
    }

    /// The key of the description that the model reads.
    pub fn description_key(self) -> (r: &'static str)
        ensures
            r@ == match self {
                CodeTool::List => "tool.code_list.desc"@,
                CodeTool::Read => "tool.code_read.desc"@,
                CodeTool::Grep => "tool.code_grep.desc"@,
                CodeTool::Edit => "tool.code_edit.desc"@,
                CodeTool::Write => "tool.code_write.desc"@,
                CodeTool::Command(CommandSlot::Build) => "tool.code_build.desc"@,
                CodeTool::Command(CommandSlot::Run) => "tool.code_run.desc"@,
                CodeTool::Command(CommandSlot::Test) => "tool.code_test.desc"@,
            },
    {
        match self {
            CodeTool::List => "tool.code_list.desc",
            CodeTool::Read => "tool.code_read.desc",
            CodeTool::Grep => "tool.code_grep.desc",
            CodeTool::Edit => "tool.code_edit.desc",
            CodeTool::Write => "tool.code_write.desc",
            CodeTool::Command(CommandSlot::Build) => "tool.code_build.desc",
            CodeTool::Command(CommandSlot::Run) => "tool.code_run.desc",
            CodeTool::Command(CommandSlot::Test) => "tool.code_test.desc",
        }
    }

    /// The key of the one-line gloss in the system block.
    pub fn gloss_key(self) -> (r: &'static str)
        ensures
            r@ == match self {
                CodeTool::List => "prompt.workspace.tool.list"@,
                CodeTool::Read => "prompt.workspace.tool.read"@,
                CodeTool::Grep => "prompt.workspace.tool.grep"@,
                CodeTool::Edit => "prompt.workspace.tool.edit"@,
                CodeTool::Write => "prompt.workspace.tool.write"@,
                CodeTool::Command(CommandSlot::Build) => "prompt.workspace.tool.build"@,
                CodeTool::Command(CommandSlot::Run) => "prompt.workspace.tool.run"@,
                CodeTool::Command(CommandSlot::Test) => "prompt.workspace.tool.test"@,
            },
    {
        match self {
            CodeTool::List => "prompt.workspace.tool.list",
            CodeTool::Read => "prompt.workspace.tool.read",
            CodeTool::Grep => "prompt.workspace.tool.grep",
            CodeTool::Edit => "prompt.workspace.tool.edit",
            CodeTool::Write => "prompt.workspace.tool.write",
            CodeTool::Command(CommandSlot::Build) => "prompt.workspace.tool.build",
            CodeTool::Command(CommandSlot::Run) => "prompt.workspace.tool.run",
            CodeTool::Command(CommandSlot::Test) => "prompt.workspace.tool.test",
        }
    }

    /// The slot that a command tool runs.
    pub fn slot(self) -> (r: Option<CommandSlot>)
        ensures
            r == match self {
                CodeTool::Command(slot) => Some(slot),
                _ => None::<CommandSlot>,
            },
    {
        match self {
            CodeTool::Command(slot) => Some(slot),
            _ => None,
        }
    }

    pub open spec fn is_dangerous(self) -> bool {
        self is Edit || self is Write || self is Command
    }

    /// Whether the user may want to be asked first: the tool writes files or
    /// runs the project's own code.
    pub fn danger(self) -> (r: bool)
        ensures
            r == self.is_dangerous(),
    {
        match self {
            CodeTool::Edit => true,
            CodeTool::Write => true,
            CodeTool::Command(_) => true,
            _ => false,
        }
    }

    /// Whether a call uses up one of the turn's rounds: none of the family does.
    pub fn counts_toward_round_limit(self) -> (r: bool)
        ensures
            !r,
    {
        false
    }
}

/// The ids of the family differ from one another, and the list holds exactly them.
pub proof fn the_family_is_the_list(t: CodeTool, u: CodeTool)
    ensures
        in_family(t.id_spec()),
        t.id_spec() == u.id_spec() ==> t == u,
{
    reveal_strlit("code_list");
    reveal_strlit("code_read");
    reveal_strlit("code_grep");
    reveal_strlit("code_edit");
    reveal_strlit("code_write");
    reveal_strlit("code_build");
    reveal_strlit("code_run");
    reveal_strlit("code_test");
    let ids = WORKSPACE_TOOL_IDS@;
    assert(ids[0]@ == CODE_LIST_ID@ && ids[1]@ == CODE_READ_ID@ && ids[2]@ == CODE_GREP_ID@);
    assert(ids[3]@ == CODE_EDIT_ID@ && ids[4]@ == CODE_WRITE_ID@ && ids[5]@ == CODE_BUILD_ID@);
    assert(ids[6]@ == CODE_RUN_ID@ && ids[7]@ == CODE_TEST_ID@);
    if t.id_spec() == u.id_spec() {
        let a = t.id_spec();
        let b = u.id_spec();
        assert(a.len() == b.len() && a[5] == b[5] && a[6] == b[6] && a[7] == b[7]);
    }
}

/// Whether the turn offers `id`: nothing where it is none of the family.
pub open spec fn is_offered(id: Seq<char>, attached: bool, commands: WorkspaceCommands) -> Option<
    bool,
> {
    if !in_family(id) {
        None
    } else if exists|slot: CommandSlot| #[trigger] CodeTool::Command(slot).id_spec() == id {
        let slot = choose|slot: CommandSlot| #[trigger] CodeTool::Command(slot).id_spec() == id;
        Some(attached && commands.filled(slot))
    } else {
        Some(attached)
    }
}

/// Whether the turn offers `id`, by what the chat has attached. A reader needs a
/// project; a command tool needs a project and a line in its slot.
pub fn offered(id: &str, attached: bool, commands: WorkspaceCommands) -> (r: Option<bool>)
    ensures
        r == is_offered(id@, attached, commands),
{
    if !is_workspace_tool(id) {
        return None;
    }
    let named: Option<CodeTool> = CodeTool::from_id(id);
    proof {
        assert forall|slot: CommandSlot| #[trigger]
            CodeTool::Command(slot).id_spec() == id@ implies named == Some(
            CodeTool::Command(slot),
        ) by {
            if named is Some {
                the_family_is_the_list(named->0, CodeTool::Command(slot));
            }
        }
        if let Some(CodeTool::Command(slot)) = named {
            assert(CodeTool::Command(slot).id_spec() == id@);
        }
    }
    match named {
        Some(CodeTool::Command(slot)) => Some(attached && commands.has(slot)),
        _ => Some(attached),
    }
}

} // verus!
