//! Text processing of an Urban Dictionary Telegram bot: the lookup
//! addresses, the answers built from Urban Dictionary's JSON responses, the
//! clean-up of definition texts, and the bot's replies and notices.
pub mod bot;
pub mod file_handling;
pub mod formatter;
pub mod helper;
pub mod json;
pub mod logger;
pub mod text;
