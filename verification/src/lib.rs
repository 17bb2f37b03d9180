use vstd::prelude::*;

pub mod commands;
pub mod complete;
pub mod conversation;
pub mod compose;
pub mod emoji;
pub mod empty;
pub mod export;
pub mod feedback;
pub mod field;
pub mod firehose;
pub mod fuzzy;
pub mod help;
pub mod images;
pub mod inbox;
pub mod input;
pub mod items;
pub mod jump;
pub mod keys;
pub mod layout;
pub mod live;
pub mod motion;
pub mod order;
pub mod palette;
pub mod pictures;
pub mod quit;
pub mod react;
pub mod row;
pub mod session;
pub mod sidebar;
pub mod state;
pub mod status;
pub mod steps;
pub mod text;
pub mod theme;
pub mod typesafe;
pub mod update;
pub mod version;

verus! {
}
