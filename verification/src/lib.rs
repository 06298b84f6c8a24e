//! The logic of a terminal client for a social network: screens as state
//! machines, text layout, and the lines each screen shows.
pub mod audio;
pub mod base64;
pub mod config;
pub mod draw;
pub mod flag;
pub mod hyperlink;
pub mod images;
pub mod input;
pub mod journal;
pub mod key;
pub mod list;
pub mod list_nav;
pub mod login;
pub mod markdown;
pub mod mention;
pub mod menu;
pub mod model;
pub mod nav;
pub mod notifications;
pub mod open;
pub mod player;
pub mod post_detail;
pub mod profile;
pub mod programs;
pub mod search;
pub mod settings_screen;
pub mod shuffle;
pub mod strs;
pub mod styles;
pub mod text;
pub mod theme;
pub mod toast;
pub mod topic_feed;
