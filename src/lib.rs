//! A client for a learning-management-system REST API: authorization through
//! a device (QR code) exchange, request building, and lazy traversal of
//! collections paginated through `Link` headers.
pub mod auth;
pub mod client;
pub mod cursor;
pub mod link;
pub mod trusted;
