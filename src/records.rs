use vstd::prelude::*;

use crate::identity::Identity;

verus! {

/// A piece of published content with its engagement counters.
#[derive(Clone, Debug)]
pub struct Content {
    pub content_id: u64,
    pub creator: Identity,
    pub title: String,
    pub content_type: String,
    pub timestamp: u64,
    pub likes: u64,
    pub shares: u64,
    pub comments: u64,
    pub is_active: bool,
}

pub struct ContentView {
    pub content_id: u64,
    pub creator: Seq<char>,
    pub title: Seq<char>,
    pub content_type: Seq<char>,
    pub timestamp: u64,
    pub likes: u64,
    pub shares: u64,
    pub comments: u64,
    pub is_active: bool,
}

impl View for Content {
    type V = ContentView;

    open spec fn view(&self) -> ContentView {
        ContentView {
            content_id: self.content_id,
            creator: self.creator@,
            title: self.title@,
            content_type: self.content_type@,
            timestamp: self.timestamp,
            likes: self.likes,
            shares: self.shares,
            comments: self.comments,
            is_active: self.is_active,
        }
    }
}

impl Content {
    pub fn duplicate(&self) -> (r: Content)
        ensures
            r@ == self@,
    {
        Content {
            content_id: self.content_id,
            creator: self.creator.duplicate(),
            title: self.title.clone(),
            content_type: self.content_type.clone(),
            timestamp: self.timestamp,
            likes: self.likes,
            shares: self.shares,
            comments: self.comments,
            is_active: self.is_active,
        }
    }
}

/// A user's standing on the platform.
#[derive(Clone, Debug)]
pub struct UserProfile {
    pub user_addr: Identity,
    pub reputation_score: u64,
    pub total_rewards: u64,
    pub content_count: u64,
    pub joined_timestamp: u64,
}

pub struct ProfileView {
    pub user_addr: Seq<char>,
    pub reputation_score: u64,
    pub total_rewards: u64,
    pub content_count: u64,
    pub joined_timestamp: u64,
}

impl View for UserProfile {
    type V = ProfileView;

    open spec fn view(&self) -> ProfileView {
        ProfileView {
            user_addr: self.user_addr@,
            reputation_score: self.reputation_score,
            total_rewards: self.total_rewards,
            content_count: self.content_count,
            joined_timestamp: self.joined_timestamp,
        }
    }
}

impl UserProfile {
    pub fn duplicate(&self) -> (r: UserProfile)
        ensures
            r@ == self@,
    {
        UserProfile {
            user_addr: self.user_addr.duplicate(),
            reputation_score: self.reputation_score,
            total_rewards: self.total_rewards,
            content_count: self.content_count,
            joined_timestamp: self.joined_timestamp,
        }
    }
}

/// Platform-wide counters.
#[derive(Clone, Copy, Debug, PartialEq, Eq, Structural)]
pub struct RewardMetrics {
    pub total_content: u64,
    pub total_users: u64,
    pub total_rewards_distributed: u64,
    pub active_content: u64,
}

/// Store key of a user's list of content ids.
#[derive(Clone, Debug)]
pub enum UserContentList {
    ForUser(Identity),
}

/// Store key of one content record.
#[derive(Clone, Copy, Debug, PartialEq, Eq, Structural)]
pub enum ContentMap {
    Content(u64),
}

/// Store key of a user's profile.
#[derive(Clone, Debug)]
pub enum UserProfileMap {
    Profile(Identity),
}

/// Why an operation was refused; a refused operation changes nothing.
#[derive(Clone, Copy, Debug, PartialEq, Eq, Structural)]
pub enum Error {
    /// The content or profile referred to does not exist (or, for content,
    /// is no longer active).
    NotFound,
    /// The call is not authorized for the identity that the action needs.
    Unauthorized,
    /// The engagement type is not one that the reward table knows.
    InvalidArgument,
    /// The identity already has a profile.
    AlreadyExists,
    /// A counter would pass the largest `u64`.
    Overflow,
}

} // verus!
