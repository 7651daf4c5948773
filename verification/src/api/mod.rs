//! The room API's logic: HTTP request framing, parsing and routing, the
//! room registry and the answer to each route, the JSON it reads and
//! writes, and room ids. The sockets and threads live around it.

pub mod json;
pub mod room;
pub mod http;
pub mod registry;
pub mod handler;
