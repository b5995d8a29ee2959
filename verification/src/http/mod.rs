pub mod status;
pub mod header;
pub mod body;
pub mod request;
pub mod response;
