//! Character cards: their formats, how they are read, written and imported.

pub mod archive;
pub mod archive_laws;
pub mod byaf;
pub mod byaf_chat;
pub mod byaf_chat_laws;
pub mod byaf_import;
pub mod byaf_laws;
pub mod card_laws;
pub mod charx;
pub mod charx_laws;
pub mod helpers;
pub mod import_laws;
pub mod laws;
pub mod macros;
pub mod merge_laws;
pub mod parse_laws;
pub mod reads;
pub mod validator;
pub mod write_laws;
pub mod writes;
