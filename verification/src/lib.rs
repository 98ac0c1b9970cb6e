pub mod attempt;
pub mod body;
pub mod captcha;
pub mod clock;
pub mod crypto;
pub mod flowlog;
pub mod gateway;
pub mod handler;
pub mod headers;
pub mod identity;
pub mod json;
pub mod logs;
pub mod models;
pub mod pool;
pub mod prompt;
pub mod repair;
pub mod reply;
pub mod routing;
pub mod server;
pub mod signing;
pub mod sse;
pub mod stream;
pub mod text;
pub mod translate;
pub mod upstream;
pub mod url;
pub mod utf8;
