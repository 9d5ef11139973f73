//! The table of tools is in the order of the tools' names, and each has a label.

use vstd::prelude::*;
use crate::registry;
use crate::registry::{TOOLS, TOOL_COUNT};
use crate::text;

verus! {

/// The name of a row comes before that of the next one.
spec fn is_before_next(i: int) -> bool {
    &&& text::not_after(TOOLS@[i].0@, TOOLS@[i + 1].0@)
    &&& TOOLS@[i].0@ != TOOLS@[i + 1].0@
}

proof fn before_next(i: int, k: int)
    requires
        0 <= k < TOOLS@[i].0@.len(),
        k < TOOLS@[i + 1].0@.len(),
        forall|j: int| 0 <= j < k ==> #[trigger] TOOLS@[i].0@[j] == TOOLS@[i + 1].0@[j],
        TOOLS@[i].0@[k] < TOOLS@[i + 1].0@[k],
    ensures
        is_before_next(i),
{
    text::first_difference_decides(TOOLS@[i].0@, TOOLS@[i + 1].0@, k);
}

proof fn neighbours_are_in_order(i: int)
    requires
        0 <= i < TOOL_COUNT - 1,
    ensures
        is_before_next(i),
{
    if i == 0 {
        reveal_strlit("add_insight");
        reveal_strlit("attachment_read");
        before_next(0, 1);
    } else if i == 1 {
        reveal_strlit("attachment_read");
        reveal_strlit("attachment_search");
        before_next(1, 11);
    } else if i == 2 {
        reveal_strlit("attachment_search");
        reveal_strlit("calculate");
        before_next(2, 0);
    } else if i == 3 {
        reveal_strlit("calculate");
        reveal_strlit("call_subagent");
        before_next(3, 3);
    } else if i == 4 {
        reveal_strlit("call_subagent");
        reveal_strlit("chat_read");
        before_next(4, 1);
    } else if i == 5 {
        reveal_strlit("chat_read");
        reveal_strlit("chat_search");
        before_next(5, 5);
    } else if i == 6 {
        reveal_strlit("chat_search");
        reveal_strlit("code_build");
        before_next(6, 1);
    } else if i == 7 {
        reveal_strlit("code_build");
        reveal_strlit("code_edit");
        before_next(7, 5);
    } else if i == 8 {
        reveal_strlit("code_edit");
        reveal_strlit("code_grep");
        before_next(8, 5);
    } else if i == 9 {
        reveal_strlit("code_grep");
        reveal_strlit("code_list");
        before_next(9, 5);
    } else if i == 10 {
        reveal_strlit("code_list");
        reveal_strlit("code_read");
        before_next(10, 5);
    } else if i == 11 {
        reveal_strlit("code_read");
        reveal_strlit("code_run");
        before_next(11, 6);
    } else if i == 12 {
        reveal_strlit("code_run");
        reveal_strlit("code_test");
        before_next(12, 5);
    } else if i == 13 {
        reveal_strlit("code_test");
        reveal_strlit("code_write");
        before_next(13, 5);
    } else if i == 14 {
        reveal_strlit("code_write");
        reveal_strlit("consolidate_notes");
        before_next(14, 2);
    } else if i == 15 {
        reveal_strlit("consolidate_notes");
        reveal_strlit("current_time");
        before_next(15, 1);
    } else if i == 16 {
        reveal_strlit("current_time");
        reveal_strlit("fetch_url");
        before_next(16, 0);
    } else if i == 17 {
        reveal_strlit("fetch_url");
        reveal_strlit("fs_list");
        before_next(17, 1);
    } else if i == 18 {
        reveal_strlit("fs_list");
        reveal_strlit("fs_read");
        before_next(18, 3);
    } else if i == 19 {
        reveal_strlit("fs_read");
        reveal_strlit("fs_write");
        before_next(19, 3);
    } else if i == 20 {
        reveal_strlit("fs_write");
        reveal_strlit("get_last_user_message_time");
        before_next(20, 0);
    } else if i == 21 {
        reveal_strlit("get_last_user_message_time");
        reveal_strlit("get_llm_history");
        before_next(21, 5);
    } else if i == 22 {
        reveal_strlit("get_llm_history");
        reveal_strlit("get_llm_name");
        before_next(22, 8);
    } else if i == 23 {
        reveal_strlit("get_llm_name");
        reveal_strlit("get_sampling");
        before_next(23, 4);
    } else if i == 24 {
        reveal_strlit("get_sampling");
        reveal_strlit("get_self_model");
        before_next(24, 5);
    } else if i == 25 {
        reveal_strlit("get_self_model");
        reveal_strlit("get_system_message");
        before_next(25, 5);
    } else if i == 26 {
        reveal_strlit("get_system_message");
        reveal_strlit("history_read");
        before_next(26, 0);
    } else if i == 27 {
        reveal_strlit("history_read");
        reveal_strlit("history_search");
        before_next(27, 8);
    } else if i == 28 {
        reveal_strlit("history_search");
        reveal_strlit("note_cite_source");
        before_next(28, 0);
    } else if i == 29 {
        reveal_strlit("note_cite_source");
        reveal_strlit("note_link");
        before_next(29, 5);
    } else if i == 30 {
        reveal_strlit("note_link");
        reveal_strlit("note_merge");
        before_next(30, 5);
    } else if i == 31 {
        reveal_strlit("note_merge");
        reveal_strlit("note_neighbors");
        before_next(31, 5);
    } else if i == 32 {
        reveal_strlit("note_neighbors");
        reveal_strlit("note_recall");
        before_next(32, 5);
    } else if i == 33 {
        reveal_strlit("note_recall");
        reveal_strlit("note_revise");
        before_next(33, 7);
    } else if i == 34 {
        reveal_strlit("note_revise");
        reveal_strlit("note_save");
        before_next(34, 5);
    } else if i == 35 {
        reveal_strlit("note_save");
        reveal_strlit("note_supersede");
        before_next(35, 6);
    } else if i == 36 {
        reveal_strlit("note_supersede");
        reveal_strlit("python_exec");
        before_next(36, 0);
    } else if i == 37 {
        reveal_strlit("python_exec");
        reveal_strlit("rag_add");
        before_next(37, 0);
    } else if i == 38 {
        reveal_strlit("rag_add");
        reveal_strlit("rag_search");
        before_next(38, 4);
    } else if i == 39 {
        reveal_strlit("rag_search");
        reveal_strlit("reflect");
        before_next(39, 1);
    } else if i == 40 {
        reveal_strlit("reflect");
        reveal_strlit("rewrite_current_message");
        before_next(40, 2);
    } else if i == 41 {
        reveal_strlit("rewrite_current_message");
        reveal_strlit("run_dialogue");
        before_next(41, 1);
    } else if i == 42 {
        reveal_strlit("run_dialogue");
        reveal_strlit("send_followup_message");
        before_next(42, 0);
    } else if i == 43 {
        reveal_strlit("send_followup_message");
        reveal_strlit("set_sampling");
        before_next(43, 2);
    } else if i == 44 {
        reveal_strlit("set_sampling");
        reveal_strlit("set_system_message");
        before_next(44, 5);
    } else if i == 45 {
        reveal_strlit("set_system_message");
        reveal_strlit("start_dialogue");
        before_next(45, 1);
    } else if i == 46 {
        reveal_strlit("start_dialogue");
        reveal_strlit("update_self_model");
        before_next(46, 0);
    } else if i == 47 {
        reveal_strlit("update_self_model");
        reveal_strlit("update_user_model");
        before_next(47, 7);
    } else if i == 48 {
        reveal_strlit("update_user_model");
        reveal_strlit("web_search");
        before_next(48, 0);
    } else {
        reveal_strlit("web_search");
        reveal_strlit("youtube_watch");
        before_next(49, 0);
    }
}

/// The names of the table rise, and no two are the same.
pub proof fn the_table_is_in_order(i: int, j: int)
    requires
        0 <= i < j < TOOL_COUNT,
    ensures
        text::not_after(TOOLS@[i].0@, TOOLS@[j].0@),
        TOOLS@[i].0@ != TOOLS@[j].0@,
    decreases j - i,
{
    neighbours_are_in_order(j - 1);
    if i < j - 1 {
        the_table_is_in_order(i, j - 1);
        text::not_after_transitive(TOOLS@[i].0@, TOOLS@[j - 1].0@, TOOLS@[j].0@);
        if TOOLS@[i].0@ == TOOLS@[j].0@ {
            text::not_after_both_ways(TOOLS@[j - 1].0@, TOOLS@[j].0@);
        }
    }
}

/// Every tool has a label.
pub proof fn every_tool_has_a_label(i: int)
    requires
        0 <= i < TOOL_COUNT,
    ensures
        TOOLS@[i].2@.len() > 0,
{
    reveal_strlit("add an insight");
    reveal_strlit("read an attached file");
    reveal_strlit("search attached files");
    reveal_strlit("калькулятор");
    reveal_strlit("call a subagent");
    reveal_strlit("read another conversation");
    reveal_strlit("search other conversations");
    reveal_strlit("build the project");
    reveal_strlit("edit project file");
    reveal_strlit("search project");
    reveal_strlit("list project files");
    reveal_strlit("read project file");
    reveal_strlit("run the project");
    reveal_strlit("test the project");
    reveal_strlit("write project file");
    reveal_strlit("notes consolidation");
    reveal_strlit("текущее время");
    reveal_strlit("fetch page");
    reveal_strlit("list files");
    reveal_strlit("read file");
    reveal_strlit("write file");
    reveal_strlit("время посл. сообщения");
    reveal_strlit("LLM history");
    reveal_strlit("show LLM name");
    reveal_strlit("показать семплинг");
    reveal_strlit("show the self-model");
    reveal_strlit("показать сис. сообщение");
    reveal_strlit("read the summarized history");
    reveal_strlit("search the summarized history");
    reveal_strlit("сослаться на источник");
    reveal_strlit("link notes");
    reveal_strlit("merge notes");
    reveal_strlit("note links");
    reveal_strlit("recall notes");
    reveal_strlit("revise note");
    reveal_strlit("save note");
    reveal_strlit("supersede note");
    reveal_strlit("run Python");
    reveal_strlit("add to knowledge");
    reveal_strlit("search knowledge");
    reveal_strlit("reflect");
    reveal_strlit("rewrite reply");
    reveal_strlit("dialogue run");
    reveal_strlit("continue message");
    reveal_strlit("изменить семплинг");
    reveal_strlit("изменить сис. сообщение");
    reveal_strlit("background dialogue");
    reveal_strlit("update the self-model");
    reveal_strlit("update the user model");
    reveal_strlit("search the web");
    reveal_strlit("watch a video");
}

/// A row is found by its name.
pub proof fn a_row_is_found(i: int, n: int)
    requires
        0 <= i < n <= TOOL_COUNT,
    ensures
        registry::row_of(TOOLS@[i].0@, n) == i,
    decreases n,
{
    if i < n - 1 {
        the_table_is_in_order(i, n - 1);
        a_row_is_found(i, n - 1);
    }
}

} // verus!
