//! A small web front-end library: it decodes the paginated JSON envelope of
//! an expense record store, projects the records to a display view model, and
//! renders the two HTML pages that the server returns. The server itself
//! (routing, the outbound fetch) lives outside; this crate holds the logic,
//! stated and proved.

pub mod handler;
pub mod html;
pub mod json;
pub mod model;
