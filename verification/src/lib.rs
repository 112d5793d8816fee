pub mod answer_laws;
pub mod anthropic;
pub mod azure;
pub mod assets;
pub mod avatars;
pub mod backends_chat_completions;
pub mod backends_kobold;
pub mod backends_text_completions;
pub mod backgrounds;
pub mod backups;
pub mod base64_text;
pub mod caption;
pub mod characters;
pub mod chat_import;
pub mod chat_import_laws;
pub mod chat_laws;
pub mod chat_search;
pub mod chats;
pub mod classify;
pub mod completion_laws;
pub mod content;
pub mod content_laws;
pub mod data_maid;
pub mod data_maid_tokens;
pub mod extension_laws;
pub mod extensions;
pub mod files;
pub mod global;
pub mod google;
pub mod google_laws;
pub mod groups;
pub mod horde;
pub mod image_laws;
pub mod image_metadata;
pub mod images;
pub mod js;
pub mod js_number;
pub mod json;
pub mod maid_laws;
pub mod minimax;
pub mod moving_ui;
pub mod naming;
pub mod numbers;
pub mod outcome_laws;
pub mod outside;
pub mod paths;
pub mod request_laws;
pub mod sanitize;
pub mod secrets;
pub mod service_laws;
pub mod store_laws;
pub mod text;
pub mod text_laws;
pub mod value_laws;
pub mod web;
