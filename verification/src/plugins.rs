//! Feature plugins layered over the component bus.

pub mod bookmarks;
