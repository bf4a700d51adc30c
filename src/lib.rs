//! Decision logic of a small document-sync client: the car and photo
//! documents it stores, the checks on an attachment download's event stream,
//! and the one-shot wait on a standing query.

pub mod car;
pub mod fetch;
pub mod observer;
pub mod photo;
