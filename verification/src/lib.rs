//! A client core for a photo-sharing platform's collection listings: it
//! gathers the full-size image addresses of paginated collections and
//! downloads a chosen list of them, with the network and the file system
//! supplied by the caller.

pub mod collector;
pub mod downloader;
pub mod json;
pub mod schema;
pub mod text;

pub use crate::collector::PageError;
pub use crate::collector::Unsplash;
pub use crate::downloader::DownloadResult;
pub use crate::downloader::Downloader;
pub use crate::downloader::FetchError;
pub use crate::json::Json;
pub use crate::schema::Animals;
pub use crate::schema::People;
pub use crate::schema::ProfileImage;
pub use crate::schema::Social;
pub use crate::schema::Status;
pub use crate::schema::TopicSubmissions;
pub use crate::schema::UnsplashResponse;
pub use crate::schema::Urls;
pub use crate::schema::User;
pub use crate::schema::UserLinks;
pub use crate::schema::WelcomeElement;
pub use crate::schema::WelcomeLinks;
