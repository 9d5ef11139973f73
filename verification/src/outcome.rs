//! What a tool call comes to.

use vstd::prelude::*;
use crate::sampling::SamplingConfig;

verus! {

/// A file attached to the chat by a tool.
#[derive(Debug)]
pub struct NewAttachment {
    pub name: String,
    pub source: String,
    pub text: String,
    /// The text stands in the context whole, and is not read page by page.
    pub inline: bool,
}

/// A change to the chat that a tool asks for; whoever owns the chat makes it.
#[derive(Debug)]
pub enum ChatEffect {
    /// Exchange the chat's system message.
    SetSystemMessage(String),
    /// Exchange the chat's sampling override.
    SetSamplingOverride(Box<SamplingConfig>),
    /// Attach a text the tool came by, in place of one with the same source.
    AddAttachment(Box<NewAttachment>),
}

/// How long the engine took over the prompt of a request that a tool made.
#[derive(Debug, Clone, Copy, PartialEq, Eq, Structural)]
pub struct Prefill {
    pub tokens: u64,
    pub ms: u64,
}

/// A picture that a tool gives along with its text.
#[derive(Debug)]
pub struct ToolImage {
    pub mime: String,
    /// The picture itself, in Base64.
    pub data: String,
}

/// The text for the model, and the changes to the chat that go with it.
#[derive(Debug)]
pub struct ToolOutcome {
    pub result: String,
    pub effects: Vec<ChatEffect>,
    /// The call stored something.
    pub wrote: bool,
    /// The timing of a request that the tool made, where the engine gave one.
    pub prefill: Option<Prefill>,
    pub images: Vec<ToolImage>,
}

impl ToolOutcome {
    /// Nothing but `text`: no effect, nothing stored.
    pub open spec fn says(self, text: Seq<char>) -> bool {
        self.result@ == text && self.effects@.len() == 0 && !self.wrote && self.prefill
            is None && self.images@.len() == 0
    }

    /// `text`, and something was stored.
    pub open spec fn says_wrote(self, text: Seq<char>) -> bool {
        self.result@ == text && self.effects@.len() == 0 && self.wrote && self.prefill
            is None && self.images@.len() == 0
    }

    /// A result without effects.
    pub fn text(result: String) -> (r: Self)
        ensures
            r.says(result@),
    {
        ToolOutcome { result, effects: Vec::new(), wrote: false, prefill: None, images: Vec::new() }
    }

    /// A result with effects.
    pub fn with_effects(result: String, effects: Vec<ChatEffect>) -> (r: Self)
        ensures
            r.result == result,
            r.effects == effects,
            !r.wrote,
            r.prefill is None,
            r.images@.len() == 0,
    {
        ToolOutcome { result, effects, wrote: false, prefill: None, images: Vec::new() }
    }

    /// The same, with something stored where `stored` says so.
    pub fn wrote_if(self, stored: bool) -> (r: Self)
        ensures
            r.result == self.result,
            r.effects == self.effects,
            r.wrote == stored,
            r.prefill == self.prefill,
            r.images == self.images,
    {
        ToolOutcome {
            result: self.result,
            effects: self.effects,
            wrote: stored,
            prefill: self.prefill,
            images: self.images,
        }
    }

    /// The same, with the timing of a request.
    pub fn with_prefill(self, prefill: Option<Prefill>) -> (r: Self)
        ensures
            r.result == self.result,
            r.effects == self.effects,
            r.wrote == self.wrote,
            r.prefill == prefill,
            r.images == self.images,
    {
        ToolOutcome {
            result: self.result,
            effects: self.effects,
            wrote: self.wrote,
            prefill,
            images: self.images,
        }
    }

    /// The same, with pictures.
    pub fn with_images(self, images: Vec<ToolImage>) -> (r: Self)
        ensures
            r.result == self.result,
            r.effects == self.effects,
            r.wrote == self.wrote,
            r.prefill == self.prefill,
            r.images == images,
    {
        ToolOutcome {
            result: self.result,
            effects: self.effects,
            wrote: self.wrote,
            prefill: self.prefill,
            images,
        }
    }
}

} // verus!
