pub mod auth;
pub mod websocket;
