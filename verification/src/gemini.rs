pub mod request;
pub mod response;
pub mod safety;
