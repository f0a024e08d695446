//! The logic of a file manager: what its window, views, dialogs and jobs
//! decide, and the texts they show.
//!
//! Nothing here draws a widget, reads a directory or waits for anything. A
//! function takes what is known as plain values and gives back what to do, or
//! the new state of the thing it belongs to; the application around the library
//! does the rest. Every contract is stated over the mathematical models that
//! the modules define and is proved by Verus, except for the calls that
//! [`outside`] makes.
//!
//! - [`path`], [`text`] and [`entry`] hold the vocabulary: paths by their
//!   components, texts by their characters, what is known of a file.
//! - [`accent`], [`caption`], [`menu`] and [`thumbs`] are the algorithms behind
//!   what is drawn: colours, captions that fit their tiles, the place of a menu,
//!   the cache of thumbnails.
//! - [`file_object`], [`file_view`], [`pathbar`], [`sidebar`] and [`progress`]
//!   are the parts of the window, each with its state.
//! - [`window`] and [`chrome`] are the window itself: tabs, navigation, search,
//!   status. [`commands`] lists what its menus and shortcuts ask for, and
//!   [`actions`] decides what that does.
//! - [`dialogs`], [`connect`] and [`properties`] are what it asks and tells.

pub mod accent;
pub mod actions;
pub mod caption;
pub mod chrome;
pub mod commands;
pub mod connect;
pub mod dialogs;
pub mod entry;
pub mod file_object;
pub mod file_view;
pub mod menu;
pub mod outside;
pub mod path;
pub mod pathbar;
pub mod progress;
pub mod properties;
pub mod sidebar;
pub mod text;
pub mod thumbs;
pub mod window;
