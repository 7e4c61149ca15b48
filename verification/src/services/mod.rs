//! The outside services that the crawler talks to: what is asked of them, and
//! what their answers mean.

pub mod posts;
pub mod post_laws;
pub mod tiktok;
pub mod scraper;
pub mod snapshot_laws;
pub mod openai;
pub mod classification_laws;
pub mod patterns;
pub mod responses;
pub mod request_laws;
pub mod reply_laws;
pub mod elevenlabs;
