//! Verified core of the QSL desktop mail client: what its windows show and do,
//! how mail is answered, saved, queued and sent, and how accounts are kept in
//! sync. Windows, storage and mail servers are left to the program around it.
pub mod accounts;
pub mod addresses;
pub mod attachments;
pub mod autocomplete;
pub mod backend;
pub mod calendar;
pub mod changes;
pub mod compose;
pub mod display;
pub mod drafts;
pub mod history_sync;
pub mod host_log;
pub mod inputs;
pub mod keyboard;
pub mod mailto;
pub mod message_list;
pub mod messages;
pub mod model;
pub mod number;
pub mod oauth_add;
pub mod order;
pub mod outbox;
pub mod palette;
pub mod picker;
pub mod reader;
pub mod reply;
pub mod settings;
pub mod shell;
pub mod sidebar;
pub mod surface;
pub mod sync_engine;
pub mod sync_status;
pub mod table;
pub mod text;
pub mod threading;
pub mod tray;
pub mod urls;
pub mod watcher;
pub mod windows;
