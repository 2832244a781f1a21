//! What the tool server decides by itself: the shapes of the tool
//! arguments with their defaults, and which log notifications are sent.

pub mod args;
pub mod notify;
