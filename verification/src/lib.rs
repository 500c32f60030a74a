//! The logic of esmail, a desktop mail client, stated and proved in Verus.

pub mod actor;
pub mod app;
pub mod app_changes;
pub mod app_events;
pub mod app_invariant;
pub mod app_keys;
pub mod app_laws;
pub mod app_outbox;
pub mod app_queue;
pub mod app_store;
pub mod app_ui;
pub mod app_windows;
pub mod auth;
pub mod cache_laws;
pub mod command_laws;
pub mod compose;
pub mod compose_window;
pub mod db;
pub mod desk_laws;
pub mod event_laws;
pub mod events;
pub mod files;
pub mod folders;
pub mod form;
pub mod html;
pub mod idle_watch;
pub mod imap;
pub mod ipc;
pub mod mail_laws;
pub mod mailbox_laws;
pub mod mailboxes;
pub mod model_laws;
pub mod outbox_laws;
pub mod screen_laws;
pub mod search_query;
pub mod selection;
pub mod send_laws;
pub mod session_laws;
pub mod setup_laws;
pub mod shell;
pub mod startup;
pub mod state;
pub mod store_laws;
pub mod text;
pub mod text_laws;
pub mod theme;
pub mod tray;
pub mod webview;
pub mod worker;
