//! Web application launchers: the browser registry, the launcher entries and
//! their store, the icon pipeline, and the controller that ties them together.

pub mod text;
pub mod browser;
pub mod weburl;
pub mod entry;
pub mod error;
pub mod launcher;
pub mod store;
pub mod page;
pub mod icons;
pub mod gui;
pub mod storage;
