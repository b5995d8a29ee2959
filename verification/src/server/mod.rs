pub mod logger;
pub mod errors;
pub mod cgi;
pub mod static_files;
pub mod route;
pub mod uploader;
pub mod stream;
pub mod session;
pub mod handlers;
pub mod host;
pub mod connection;
pub mod server;
