pub mod release;
pub mod refr_github;
