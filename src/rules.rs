use vstd::prelude::*;

use crate::engagement::{engagement_of, reward_spec, Engagement};
use crate::records::{ContentView, Error, ProfileView, RewardMetrics};

verus! {

/// What the platform holds of one user: the profile and the ids of the
/// content the user created, in creation order.
pub struct UserView {
    pub profile: ProfileView,
    pub content_ids: Seq<u64>,
}

/// The whole platform state. Content with id `k` sits at `contents[k - 1]`.
pub struct PlatformView {
    pub content_count: u64,
    pub contents: Seq<ContentView>,
    pub users: Map<Seq<char>, UserView>,
    pub metrics: RewardMetrics,
}

pub open spec fn content_sentinel() -> ContentView {
    ContentView {
        content_id: 0,
        creator: Seq::empty(),
        title: Seq::empty(),
        content_type: Seq::empty(),
        timestamp: 0,
        likes: 0,
        shares: 0,
        comments: 0,
        is_active: false,
    }
}

pub open spec fn has_content(s: PlatformView, id: u64) -> bool {
    1 <= id <= s.contents.len()
}

/// The record stored under `id`, or the zero-valued sentinel.
pub open spec fn content_at(s: PlatformView, id: u64) -> ContentView {
    if has_content(s, id) {
        s.contents[id - 1]
    } else {
        content_sentinel()
    }
}

/// The profile of `user`, or the zero-valued sentinel that carries `user`.
pub open spec fn profile_of(s: PlatformView, user: Seq<char>) -> ProfileView {
    if s.users.contains_key(user) {
        s.users[user].profile
    } else {
        ProfileView {
            user_addr: user,
            reputation_score: 0,
            total_rewards: 0,
            content_count: 0,
            joined_timestamp: 0,
        }
    }
}

pub open spec fn content_list_of(s: PlatformView, user: Seq<char>) -> Seq<u64> {
    if s.users.contains_key(user) {
        s.users[user].content_ids
    } else {
        Seq::empty()
    }
}

pub open spec fn active_count(cs: Seq<ContentView>) -> nat
    decreases cs.len(),
{
    if cs.len() == 0 {
        0
    } else {
        active_count(cs.drop_last()) + if cs.last().is_active {
            1nat
        } else {
            0nat
        }
    }
}

/// The invariants that tie the records together.
pub open spec fn platform_wf(s: PlatformView) -> bool {
    &&& s.content_count == s.contents.len()
    &&& s.metrics.total_content == s.contents.len()
    &&& s.metrics.active_content == active_count(s.contents)
    &&& forall|i: int| 0 <= i < s.contents.len() ==> #[trigger] s.contents[i].content_id == i + 1
    &&& forall|i: int|
        0 <= i < s.contents.len() ==> s.users.contains_key(#[trigger] s.contents[i].creator)
    &&& forall|u: Seq<char>| #[trigger]
        s.users.contains_key(u) ==> {
            &&& s.users[u].profile.user_addr == u
            &&& s.users[u].profile.content_count == s.users[u].content_ids.len()
        }
    &&& forall|u: Seq<char>, j: int|
        s.users.contains_key(u) && 0 <= j < s.users[u].content_ids.len() ==> {
            let id = #[trigger] s.users[u].content_ids[j];
            &&& has_content(s, id)
            &&& s.contents[id - 1].creator == u
        }
}

/// The state of a platform on which nothing has happened yet.
pub open spec fn empty_platform() -> PlatformView {
    PlatformView {
        content_count: 0,
        contents: Seq::empty(),
        users: Map::empty(),
        metrics: RewardMetrics {
            total_content: 0,
            total_users: 0,
            total_rewards_distributed: 0,
            active_content: 0,
        },
    }
}

pub open spec fn create_content_step(
    s: PlatformView,
    creator: Seq<char>,
    authorized: bool,
    title: Seq<char>,
    content_type: Seq<char>,
    now: u64,
) -> (PlatformView, Result<u64, Error>) {
    let p = profile_of(s, creator);
    if !authorized {
        (s, Err(Error::Unauthorized))
    } else if s.content_count == u64::MAX || p.content_count == u64::MAX
        || s.metrics.total_content == u64::MAX || s.metrics.active_content == u64::MAX {
        (s, Err(Error::Overflow))
    } else {
        let id = (s.content_count + 1) as u64;
        let c = ContentView {
            content_id: id,
            creator,
            title,
            content_type,
            timestamp: now,
            likes: 0,
            shares: 0,
            comments: 0,
            is_active: true,
        };
        let u = UserView {
            profile: ProfileView { content_count: (p.content_count + 1) as u64, ..p },
            content_ids: content_list_of(s, creator).push(id),
        };
        let m = RewardMetrics {
            total_content: (s.metrics.total_content + 1) as u64,
            active_content: (s.metrics.active_content + 1) as u64,
            ..s.metrics
        };
        (
            PlatformView {
                content_count: id,
                contents: s.contents.push(c),
                users: s.users.insert(creator, u),
                metrics: m,
            },
            Ok(id),
        )
    }
}

/// `c` with the counter of `e` one higher.
pub open spec fn bumped(c: ContentView, e: Engagement) -> ContentView {
    match e {
        Engagement::Like => ContentView { likes: (c.likes + 1) as u64, ..c },
        Engagement::Share => ContentView { shares: (c.shares + 1) as u64, ..c },
        Engagement::Comment => ContentView { comments: (c.comments + 1) as u64, ..c },
    }
}

pub open spec fn counter_full(c: ContentView, e: Engagement) -> bool {
    match e {
        Engagement::Like => c.likes == u64::MAX,
        Engagement::Share => c.shares == u64::MAX,
        Engagement::Comment => c.comments == u64::MAX,
    }
}

pub open spec fn record_engagement_step(
    s: PlatformView,
    user: Seq<char>,
    authorized: bool,
    content_id: u64,
    engagement_type: Seq<char>,
) -> (PlatformView, Result<u64, Error>) {
    let c = content_at(s, content_id);
    if !authorized {
        (s, Err(Error::Unauthorized))
    } else if c.content_id == 0 || !c.is_active {
        (s, Err(Error::NotFound))
    } else if engagement_of(engagement_type) is None {
        (s, Err(Error::InvalidArgument))
    } else {
        let e = engagement_of(engagement_type)->0;
        let amount = reward_spec(e);
        let p = profile_of(s, c.creator);
        if counter_full(c, e) || p.total_rewards + amount > u64::MAX || p.reputation_score
            + amount > u64::MAX || s.metrics.total_rewards_distributed + amount > u64::MAX {
            (s, Err(Error::Overflow))
        } else {
            let u = UserView {
                profile: ProfileView {
                    total_rewards: (p.total_rewards + amount) as u64,
                    reputation_score: (p.reputation_score + amount) as u64,
                    ..p
                },
                content_ids: content_list_of(s, c.creator),
            };
            let m = RewardMetrics {
                total_rewards_distributed: (s.metrics.total_rewards_distributed + amount) as u64,
                ..s.metrics
            };
            (
                PlatformView {
                    contents: s.contents.update(content_id - 1, bumped(c, e)),
                    users: s.users.insert(c.creator, u),
                    metrics: m,
                    ..s
                },
                Ok(amount),
            )
        }
    }
}

pub open spec fn new_profile(user: Seq<char>, now: u64) -> ProfileView {
    ProfileView {
        user_addr: user,
        reputation_score: 10,
        total_rewards: 0,
        content_count: 0,
        joined_timestamp: now,
    }
}

pub open spec fn register_user_step(s: PlatformView, user: Seq<char>, authorized: bool, now: u64) -> (
    PlatformView,
    Result<ProfileView, Error>,
) {
    if !authorized {
        (s, Err(Error::Unauthorized))
    } else if s.users.contains_key(user) {
        (s, Err(Error::AlreadyExists))
    } else if s.metrics.total_users == u64::MAX {
        (s, Err(Error::Overflow))
    } else {
        let u = UserView { profile: new_profile(user, now), content_ids: Seq::empty() };
        let m = RewardMetrics { total_users: (s.metrics.total_users + 1) as u64, ..s.metrics };
        (PlatformView { users: s.users.insert(user, u), metrics: m, ..s }, Ok(new_profile(user, now)))
    }
}

pub open spec fn deactivate_content_step(
    s: PlatformView,
    creator: Seq<char>,
    authorized: bool,
    content_id: u64,
) -> (PlatformView, Result<(), Error>) {
    let c = content_at(s, content_id);
    if !authorized {
        (s, Err(Error::Unauthorized))
    } else if c.content_id == 0 {
        (s, Err(Error::NotFound))
    } else if c.creator != creator {
        (s, Err(Error::Unauthorized))
    } else if !c.is_active {
        (s, Err(Error::NotFound))
    } else {
        let m = RewardMetrics {
            active_content: (s.metrics.active_content - 1) as u64,
            ..s.metrics
        };
        (
            PlatformView {
                contents: s.contents.update(content_id - 1, ContentView { is_active: false, ..c }),
                metrics: m,
                ..s
            },
            Ok(()),
        )
    }
}

pub proof fn lemma_active_push(cs: Seq<ContentView>, c: ContentView)
    ensures
        active_count(cs.push(c)) == active_count(cs) + if c.is_active {
            1nat
        } else {
            0nat
        },
{
    assert(cs.push(c).drop_last() =~= cs);
}

pub proof fn lemma_active_update(cs: Seq<ContentView>, i: int, c: ContentView)
    requires
        0 <= i < cs.len(),
    ensures
        active_count(cs.update(i, c)) + (if cs[i].is_active {
            1nat
        } else {
            0nat
        }) == active_count(cs) + if c.is_active {
            1nat
        } else {
            0nat
        },
    decreases cs.len(),
{
    if i == cs.len() - 1 {
        assert(cs.update(i, c).drop_last() =~= cs.drop_last());
    } else {
        lemma_active_update(cs.drop_last(), i, c);
        assert(cs.update(i, c).drop_last() =~= cs.drop_last().update(i, c));
    }
}

pub proof fn lemma_create_wf(
    s: PlatformView,
    creator: Seq<char>,
    authorized: bool,
    title: Seq<char>,
    content_type: Seq<char>,
    now: u64,
)
    requires
        platform_wf(s),
    ensures
        platform_wf(create_content_step(s, creator, authorized, title, content_type, now).0),
{
    let (t, r) = create_content_step(s, creator, authorized, title, content_type, now);
    if r is Ok {
        let id = r->Ok_0;
        let c = t.contents.last();
        lemma_active_push(s.contents, c);
        assert(t.contents == s.contents.push(c));
        assert forall|i: int| 0 <= i < t.contents.len() implies t.users.contains_key(
            #[trigger] t.contents[i].creator,
        ) by {
            if i < s.contents.len() {
                assert(t.contents[i] == s.contents[i]);
            }
        }
        assert forall|u: Seq<char>, j: int|
            t.users.contains_key(u) && 0 <= j < t.users[u].content_ids.len() implies {
            let k = #[trigger] t.users[u].content_ids[j];
            &&& has_content(t, k)
            &&& t.contents[k - 1].creator == u
        } by {
            let k = t.users[u].content_ids[j];
            if u == creator {
                if j < content_list_of(s, creator).len() {
                    assert(s.users.contains_key(u));
                    assert(k == s.users[u].content_ids[j]);
                    assert(t.contents[k - 1] == s.contents[k - 1]);
                } else {
                    assert(k == id);
                }
            } else {
                assert(k == s.users[u].content_ids[j]);
                assert(t.contents[k - 1] == s.contents[k - 1]);
            }
        }
    }
}

pub proof fn lemma_record_engagement_wf(
    s: PlatformView,
    user: Seq<char>,
    authorized: bool,
    content_id: u64,
    engagement_type: Seq<char>,
)
    requires
        platform_wf(s),
    ensures
        platform_wf(record_engagement_step(s, user, authorized, content_id, engagement_type).0),
{
    let (t, r) = record_engagement_step(s, user, authorized, content_id, engagement_type);
    if r is Ok {
        let c = content_at(s, content_id);
        let e = engagement_of(engagement_type)->0;
        let i = content_id - 1;
        lemma_active_update(s.contents, i, bumped(c, e));
        assert forall|k: int| 0 <= k < t.contents.len() implies #[trigger] t.contents[k].content_id
            == k + 1 && t.users.contains_key(t.contents[k].creator) by {
            if k != i {
                assert(t.contents[k] == s.contents[k]);
            }
        }
        assert forall|u: Seq<char>, j: int|
            t.users.contains_key(u) && 0 <= j < t.users[u].content_ids.len() implies {
            let k = #[trigger] t.users[u].content_ids[j];
            &&& has_content(t, k)
            &&& t.contents[k - 1].creator == u
        } by {
            let k = t.users[u].content_ids[j];
            assert(s.users.contains_key(u));
            assert(k == s.users[u].content_ids[j]);
            if k - 1 != i {
                assert(t.contents[k - 1] == s.contents[k - 1]);
            }
        }
    }
}

pub proof fn lemma_register_user_wf(s: PlatformView, user: Seq<char>, authorized: bool, now: u64)
    requires
        platform_wf(s),
    ensures
        platform_wf(register_user_step(s, user, authorized, now).0),
{
    let (t, r) = register_user_step(s, user, authorized, now);
    if r is Ok {
        assert forall|u: Seq<char>, j: int|
            t.users.contains_key(u) && 0 <= j < t.users[u].content_ids.len() implies {
            let k = #[trigger] t.users[u].content_ids[j];
            &&& has_content(t, k)
            &&& t.contents[k - 1].creator == u
        } by {
            assert(u != user);
            assert(t.users[u].content_ids[j] == s.users[u].content_ids[j]);
        }
    }
}

pub proof fn lemma_deactivate_content_wf(
    s: PlatformView,
    creator: Seq<char>,
    authorized: bool,
    content_id: u64,
)
    requires
        platform_wf(s),
    ensures
        platform_wf(deactivate_content_step(s, creator, authorized, content_id).0),
        deactivate_content_step(s, creator, authorized, content_id).1 is Ok
            ==> s.metrics.active_content >= 1,
{
    let (t, r) = deactivate_content_step(s, creator, authorized, content_id);
    if r is Ok {
        let c = content_at(s, content_id);
        let i = content_id - 1;
        lemma_active_update(s.contents, i, ContentView { is_active: false, ..c });
        assert forall|k: int| 0 <= k < t.contents.len() implies #[trigger] t.contents[k].content_id
            == k + 1 && t.users.contains_key(t.contents[k].creator) by {
            if k != i {
                assert(t.contents[k] == s.contents[k]);
            }
        }
        assert forall|u: Seq<char>, j: int|
            t.users.contains_key(u) && 0 <= j < t.users[u].content_ids.len() implies {
            let k = #[trigger] t.users[u].content_ids[j];
            &&& has_content(t, k)
            &&& t.contents[k - 1].creator == u
        } by {
            let k = t.users[u].content_ids[j];
            if k - 1 != i {
                assert(t.contents[k - 1] == s.contents[k - 1]);
            }
        }
    }
}

} // verus!
