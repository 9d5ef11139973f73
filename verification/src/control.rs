//! Tools by which the assistant steers the conversation: it goes on with another
//! message, or writes the current one again. The loop that runs a turn knows them by
//! name and answers them with a permission.

use vstd::prelude::*;
use crate::i18n;
use crate::i18n::Locale;
use crate::outcome::ToolOutcome;
use crate::text;

verus! {

pub const SEND_FOLLOWUP_ID: &'static str = "send_followup_message";

pub const REWRITE_CURRENT_ID: &'static str = "rewrite_current_message";

/// `name` is one of the two.
pub open spec fn is_control(name: Seq<char>) -> bool {
    name == SEND_FOLLOWUP_ID@ || name == REWRITE_CURRENT_ID@
}

/// Whether `name` is one of the two.
pub fn is_control_tool(name: &str) -> (r: bool)
    ensures
        r == is_control(name@),
{
    text::same(name, SEND_FOLLOWUP_ID) || text::same(name, REWRITE_CURRENT_ID)
}

/// The permission that answers a call.
pub open spec fn permission(name: Seq<char>, loc: Locale) -> Seq<char> {
    if name == SEND_FOLLOWUP_ID@ {
        loc.text("control.permission.followup"@)
    } else if name == REWRITE_CURRENT_ID@ {
        loc.text("control.permission.rewrite"@)
    } else {
        Seq::empty()
    }
}

/// The two tools have a permission in every language, and no other name has one.
pub proof fn only_control_tools_have_a_permission(name: Seq<char>, loc: Locale)
    ensures
        permission(name, loc).len() == 0 <==> !is_control(name),
{
    reveal(Locale::text);
    reveal_with_fuel(i18n::entry_from, 4);
    reveal_strlit("python.console.exit");
    reveal_strlit("control.permission.followup");
    reveal_strlit("control.permission.rewrite");
    assert("python.console.exit"@.len() != "control.permission.followup"@.len());
    assert("python.console.exit"@.len() != "control.permission.rewrite"@.len());
    assert("control.permission.followup"@.len() != "control.permission.rewrite"@.len());
    assert(i18n::entry_from("control.permission.followup"@, 0) == 1);
    assert(i18n::entry_from("control.permission.rewrite"@, 0) == 2);
    reveal_strlit("Продолжай: следующее сообщение уйдёт пользователю отдельно.");
    reveal_strlit("Go on: the next message goes to the user separately.");
    reveal_strlit("Перепиши ответ: новый текст заменит текущий.");
    reveal_strlit("Rewrite the reply: the new text takes the place of the current one.");
}

/// The permission that answers a call; nothing for any other tool.
pub fn control_permission_text(name: &str, loc: &Locale) -> (r: String)
    ensures
        r@ == permission(name@, *loc),
{
    if text::same(name, SEND_FOLLOWUP_ID) {
        text::owned(loc.t("control.permission.followup"))
    } else if text::same(name, REWRITE_CURRENT_ID) {
        text::owned(loc.t("control.permission.rewrite"))
    } else {
        String::new()
    }
}

/// `send_followup_message`.
pub struct SendFollowupMessage;

impl SendFollowupMessage {
    /// The answer to a call.
    pub fn outcome(&self, loc: &Locale) -> (r: ToolOutcome)
        ensures
            r.says(permission(SEND_FOLLOWUP_ID@, *loc)),
    {
        ToolOutcome::text(control_permission_text(SEND_FOLLOWUP_ID, loc))
    }
}

/// `rewrite_current_message`.
pub struct RewriteCurrentMessage;

impl RewriteCurrentMessage {
    /// The answer to a call.
    pub fn outcome(&self, loc: &Locale) -> (r: ToolOutcome)
        ensures
            r.says(permission(REWRITE_CURRENT_ID@, *loc)),
    {
        ToolOutcome::text(control_permission_text(REWRITE_CURRENT_ID, loc))
    }
}

} // verus!
