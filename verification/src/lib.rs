//! The tools an assistant can call: what each of them decides, and the text it
//! answers with. Reading files, talking to a model or a database and the rest
//! of the outside world is left to the caller, which hands plain values in and
//! takes plain values back.

pub mod answer_laws;
pub mod attachment;
pub mod basics_laws;
pub mod bundle;
pub mod calc;
pub mod chats;
pub mod code;
pub mod code_search_probe;
pub mod confirm;
pub mod console;
pub mod console_laws;
pub mod context;
pub mod conversation_laws;
pub mod control;
pub mod datetime;
pub mod dialogue;
pub mod dialogue_laws;
pub mod engine_laws;
pub mod fetch;
pub mod fetch_laws;
pub mod fs;
pub mod history;
pub mod i18n;
pub mod ids;
pub mod introspection;
pub mod json;
pub mod llm;
pub mod mcp;
pub mod meta;
pub mod notes;
pub mod order;
pub mod outcome;
pub mod present;
pub mod present_laws;
pub mod registry;
pub mod sampling;
pub mod schema;
pub mod search;
pub mod text;
pub mod text_laws;
pub mod times;
pub mod tool_laws;
pub mod tool_order;
