//! Terminal user interface: themes, layout and the text of each screen area.

pub mod layout;
pub mod theme;
pub mod view;
