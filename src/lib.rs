//! A small state-transition engine for a content platform: users publish
//! content, engagements on it earn its creator a reward, and platform-wide
//! counters stay consistent with the records after every call.
//!
//! `rules` states each operation as a function from state and arguments to
//! the next state and the result; `contract` implements the operations and
//! proves that they behave so; `laws` proves what holds over any sequence of
//! calls.

mod contract;
mod engagement;
mod identity;
pub mod laws;
mod records;
pub mod rules;

pub use contract::SocialMediaRewardsContract;
pub use engagement::Engagement;
pub use identity::Identity;
pub use records::{
    Content, ContentMap, ContentView, Error, ProfileView, RewardMetrics, UserContentList,
    UserProfile, UserProfileMap,
};
