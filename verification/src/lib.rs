//! The request logic of a small image host: which handler a request reaches,
//! which uploads are accepted and under which name they are stored, and which
//! response each outcome gets. Network and file system stay with the caller;
//! everything here works on plain values.

pub mod body;
pub mod concurrent;
pub mod form;
pub mod guarantees;
pub mod media;
pub mod pages;
pub mod reply;
pub mod router;
pub mod session;
pub mod storage;
pub mod text;
pub mod upload;
