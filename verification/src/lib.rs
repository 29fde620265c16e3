//! Tracking of followed repositories and of the commits made to them since
//! they were last looked at.

pub mod commands;
pub mod entries;
pub mod error;
pub mod gitprovider;
pub mod output;
pub mod repos;
pub mod text;
pub mod tracked_map;
pub mod userdata;

pub use error::Error;
pub use gitprovider::FetchRequest;
pub use repos::{CommitInfo, CommitsRepo, GitProvider, Repo, Timestamp};
pub use userdata::UserData;
