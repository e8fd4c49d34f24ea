use vstd::prelude::*;

pub mod ids;
pub mod keyed;
pub mod seqs;
pub mod vecset;
pub mod view;
pub mod cursor;
pub mod text;
pub mod app;
pub mod protocol;
pub mod outbox;
pub mod laws;
pub mod composer_laws;
pub mod text_parse;
pub mod folder_arguments;
pub mod preview_cache;
pub mod effect_schedule;
pub mod send_reply;
pub mod command_codec;
pub mod retained_media;
pub mod cache_keys;
pub mod runtime_step;
pub mod session_loading;

verus! {

} // verus!
