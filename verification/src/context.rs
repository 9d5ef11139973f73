//! What a tool sees of the turn that it is called in.

use vstd::prelude::*;
use crate::attachment::Attachment;
use crate::i18n::{Lang, Locale};
use crate::sampling::SamplingConfig;
use crate::times::Moment;

verus! {

/// The budget for attachments.
#[derive(Debug, Clone, Copy, PartialEq, Eq, Structural)]
pub struct AttachmentSettings {
    /// How many tokens a file that stands in the context whole may have.
    pub max_file_tokens: u64,
    /// How many tokens a page of a file has.
    pub page_tokens: u64,
}

/// What the settings say to the tools.
#[derive(Debug, Clone, Copy, PartialEq, Eq, Structural)]
pub struct ToolParams {
    /// A recall of notes shows the assistant's notes on itself too.
    pub recall_includes_self: bool,
    pub attachments: AttachmentSettings,
    /// Pictures from plugin servers reach the model.
    pub mcp_images: bool,
}

/// What the settings say of notes.
#[derive(Debug, Clone, Copy, PartialEq, Eq, Structural)]
pub struct NotesSettings {
    pub recall_includes_self: bool,
}

/// The settings of the application, as far as tools are concerned.
#[derive(Debug, Clone, Copy, PartialEq, Eq, Structural)]
pub struct AppConfig {
    pub notes: NotesSettings,
    pub attachments: AttachmentSettings,
    pub mcp_images: bool,
}

impl ToolParams {
    /// What the settings say to the tools.
    pub fn from_config(cfg: &AppConfig) -> (r: ToolParams)
        ensures
            r.recall_includes_self == cfg.notes.recall_includes_self,
            r.attachments == cfg.attachments,
            r.mcp_images == cfg.mcp_images,
    {
        ToolParams {
            recall_includes_self: cfg.notes.recall_includes_self,
            attachments: cfg.attachments,
            mcp_images: cfg.mcp_images,
        }
    }
}

/// What a turn is about.
#[derive(Debug)]
pub struct TurnInfo {
    pub profile_id: u128,
    pub chat_id: u128,
    pub system_message: String,
    pub effective_sampling: SamplingConfig,
    pub last_user_message_at: Option<Moment>,
    pub attachments: Vec<Attachment>,
    /// The language in which the model is spoken to.
    pub lang: Lang,
}

/// What a tool sees: a snapshot, which no call changes.
#[derive(Debug)]
pub struct ToolContext {
    pub profile_id: u128,
    pub chat_id: u128,
    pub system_message: String,
    pub effective_sampling: SamplingConfig,
    pub last_user_message_at: Option<Moment>,
    pub attachments: Vec<Attachment>,
    pub attachment_cfg: AttachmentSettings,
    pub recall_includes_self: bool,
    pub mcp_images: bool,
    pub loc: Locale,
}

impl ToolContext {
    /// What a tool sees in a turn under the settings.
    pub fn new(params: ToolParams, turn: TurnInfo) -> (r: ToolContext)
        ensures
            r.profile_id == turn.profile_id,
            r.chat_id == turn.chat_id,
            r.system_message == turn.system_message,
            r.effective_sampling == turn.effective_sampling,
            r.last_user_message_at == turn.last_user_message_at,
            r.attachments == turn.attachments,
            r.attachment_cfg == params.attachments,
            r.recall_includes_self == params.recall_includes_self,
            r.mcp_images == params.mcp_images,
            r.loc.lang == turn.lang,
    {
        ToolContext {
            profile_id: turn.profile_id,
            chat_id: turn.chat_id,
            system_message: turn.system_message,
            effective_sampling: turn.effective_sampling,
            last_user_message_at: turn.last_user_message_at,
            attachments: turn.attachments,
            attachment_cfg: params.attachments,
            recall_includes_self: params.recall_includes_self,
            mcp_images: params.mcp_images,
            loc: turn.lang.locale(),
        }
    }
}

} // verus!
