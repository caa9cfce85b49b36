use vstd::prelude::*;

use crate::engagement::Engagement;
use crate::identity::Identity;
use crate::records::{Content, Error, RewardMetrics, UserProfile};
use crate::rules::{
    content_at, content_list_of, create_content_step, deactivate_content_step,
    empty_platform, lemma_create_wf, lemma_deactivate_content_wf, lemma_record_engagement_wf,
    lemma_register_user_wf, platform_wf, profile_of, record_engagement_step, register_user_step,
    PlatformView, UserView,
};

verus! {

/// A user's profile together with the ids of the content the user created.
struct UserRecord {
    profile: UserProfile,
    content_ids: Vec<u64>,
}

impl View for UserRecord {
    type V = UserView;

    closed spec fn view(&self) -> UserView {
        UserView { profile: self.profile@, content_ids: self.content_ids@ }
    }
}

/// The platform: content records, user records and the platform-wide
/// counters. Every operation either applies all of its writes or, when it
/// returns an error, none.
pub struct SocialMediaRewardsContract {
    content_count: u64,
    contents: Vec<Content>,
    users: Vec<UserRecord>,
    user_map: Ghost<Map<Seq<char>, UserView>>,
    metrics: RewardMetrics,
}

impl View for SocialMediaRewardsContract {
    type V = PlatformView;

    closed spec fn view(&self) -> PlatformView {
        PlatformView {
            content_count: self.content_count,
            contents: self.contents@.map_values(|c: Content| c@),
            users: self.user_map@,
            metrics: self.metrics,
        }
    }
}

spec fn addr_of(r: UserRecord) -> Seq<char> {
    r.profile.user_addr@
}

/// `users` holds exactly the records of `m`, one per address.
spec fn users_linked(users: Seq<UserRecord>, m: Map<Seq<char>, UserView>) -> bool {
    &&& forall|i: int|
        0 <= i < users.len() ==> {
            &&& m.contains_key(#[trigger] addr_of(users[i]))
            &&& m[addr_of(users[i])] == users[i]@
        }
    &&& forall|k: Seq<char>| #[trigger]
        m.contains_key(k) ==> exists|i: int| 0 <= i < users.len() && #[trigger] addr_of(users[i]) == k
    &&& forall|i: int, j: int|
        0 <= i < users.len() && 0 <= j < users.len() && i != j ==> #[trigger] addr_of(users[i])
            != #[trigger] addr_of(users[j])
}

proof fn lemma_link_set(
    users: Seq<UserRecord>,
    m: Map<Seq<char>, UserView>,
    i: int,
    rec: UserRecord,
)
    requires
        users_linked(users, m),
        0 <= i < users.len(),
        addr_of(rec) == addr_of(users[i]),
    ensures
        users_linked(users.update(i, rec), m.insert(addr_of(rec), rec@)),
{
    let u = users.update(i, rec);
    let n = m.insert(addr_of(rec), rec@);
    assert forall|j: int| 0 <= j < u.len() implies {
        &&& n.contains_key(#[trigger] addr_of(u[j]))
        &&& n[addr_of(u[j])] == u[j]@
    } by {
        if j != i {
            assert(addr_of(users[j]) != addr_of(users[i]));
        }
    }
    assert forall|k: Seq<char>| #[trigger] n.contains_key(k) implies exists|j: int|
        0 <= j < u.len() && #[trigger] addr_of(u[j]) == k by {
        if k == addr_of(rec) {
            assert(addr_of(u[i]) == k);
        } else {
            let j = choose|j: int| 0 <= j < users.len() && #[trigger] addr_of(users[j]) == k;
            assert(addr_of(u[j]) == k);
        }
    }
    assert forall|a: int, b: int|
        0 <= a < u.len() && 0 <= b < u.len() && a != b implies #[trigger] addr_of(u[a])
        != #[trigger] addr_of(u[b]) by {
        assert(addr_of(users[a]) != addr_of(users[b]));
    }
}

proof fn lemma_link_push(users: Seq<UserRecord>, m: Map<Seq<char>, UserView>, rec: UserRecord)
    requires
        users_linked(users, m),
        !m.contains_key(addr_of(rec)),
    ensures
        users_linked(users.push(rec), m.insert(addr_of(rec), rec@)),
{
    let u = users.push(rec);
    let n = m.insert(addr_of(rec), rec@);
    let last = users.len() as int;
    assert forall|j: int| 0 <= j < u.len() implies {
        &&& n.contains_key(#[trigger] addr_of(u[j]))
        &&& n[addr_of(u[j])] == u[j]@
    } by {
        if j != last {
            assert(u[j] == users[j]);
            assert(m.contains_key(addr_of(users[j])));
        }
    }
    assert forall|k: Seq<char>| #[trigger] n.contains_key(k) implies exists|j: int|
        0 <= j < u.len() && #[trigger] addr_of(u[j]) == k by {
        if k == addr_of(rec) {
            assert(addr_of(u[last]) == k);
        } else {
            let j = choose|j: int| 0 <= j < users.len() && #[trigger] addr_of(users[j]) == k;
            assert(u[j] == users[j]);
            assert(addr_of(u[j]) == k);
        }
    }
    assert forall|a: int, b: int|
        0 <= a < u.len() && 0 <= b < u.len() && a != b implies #[trigger] addr_of(u[a])
        != #[trigger] addr_of(u[b]) by {
        if a != last && b != last {
            assert(addr_of(users[a]) != addr_of(users[b]));
        } else if a == last {
            assert(m.contains_key(addr_of(users[b])));
        } else {
            assert(m.contains_key(addr_of(users[a])));
        }
    }
}

impl SocialMediaRewardsContract {
    pub closed spec fn wf(&self) -> bool {
        &&& platform_wf(self@)
        &&& users_linked(self.users@, self.user_map@)
    }

    /// A platform with no content, no users and zeroed counters.
    pub fn new() -> (r: SocialMediaRewardsContract)
        ensures
            r.wf(),
            r@ == empty_platform(),
    {
        let r = SocialMediaRewardsContract {
            content_count: 0,
            contents: Vec::new(),
            users: Vec::new(),
            user_map: Ghost(Map::empty()),
            metrics: RewardMetrics {
                total_content: 0,
                total_users: 0,
                total_rewards_distributed: 0,
                active_content: 0,
            },
        };
        assert(r@.contents =~= Seq::<crate::records::ContentView>::empty());
        r
    }

    fn find_user(&self, user: &Identity) -> (r: Option<usize>)
        requires
            self.wf(),
        ensures
            match r {
                Some(i) => i < self.users@.len() && addr_of(self.users@[i as int]) == user@
                    && self@.users.contains_key(user@) && self@.users[user@] == self.users@[i as int]@,
                None => !self@.users.contains_key(user@),
            },
    {
        let mut i: usize = 0;
        while i < self.users.len()
            invariant
                self.wf(),
                i <= self.users@.len(),
                forall|j: int| 0 <= j < i ==> addr_of(self.users@[j]) != user@,
            decreases self.users@.len() - i,
        {
            if self.users[i].profile.user_addr.same_as(user) {
                assert(addr_of(self.users@[i as int]) == user@);
                return Some(i);
            }
            i += 1;
        }
        proof {
            if self@.users.contains_key(user@) {
                let k = choose|k: int|
                    0 <= k < self.users@.len() && #[trigger] addr_of(self.users@[k]) == user@;
                assert(addr_of(self.users@[k]) != user@);
            }
        }
        None
    }

    /// The content stored under `content_id`, or the zero-valued sentinel
    /// (id 0, empty strings, inactive) when there is none.
    pub fn get_content(&self, content_id: u64) -> (r: Content)
        requires
            self.wf(),
        ensures
            r@ == content_at(self@, content_id),
    {
        let n = self.contents.len();
        assert(self@.contents.len() == n);
        if 1 <= content_id && content_id - 1 < n as u64 {
            let i = (content_id - 1) as usize;
            assert(self@.contents[i as int] == self.contents@[i as int]@);
            self.contents[i].duplicate()
        } else {
            Content {
                content_id: 0,
                creator: Identity::new(String::new()),
                title: String::new(),
                content_type: String::new(),
                timestamp: 0,
                likes: 0,
                shares: 0,
                comments: 0,
                is_active: false,
            }
        }
    }

    /// The profile of `user`, or the zero-valued sentinel carrying `user`
    /// when `user` has none.
    pub fn get_user_profile(&self, user: Identity) -> (r: UserProfile)
        requires
            self.wf(),
        ensures
            r@ == profile_of(self@, user@),
    {
        match self.find_user(&user) {
            Some(i) => self.users[i].profile.duplicate(),
            None => UserProfile {
                user_addr: user,
                reputation_score: 0,
                total_rewards: 0,
                content_count: 0,
                joined_timestamp: 0,
            },
        }
    }

    /// The ids of the content `user` created, oldest first; empty when none.
    pub fn get_user_content_list(&self, user: Identity) -> (r: Vec<u64>)
        requires
            self.wf(),
        ensures
            r@ == content_list_of(self@, user@),
    {
        match self.find_user(&user) {
            Some(i) => {
                let ids = &self.users[i].content_ids;
                let mut out: Vec<u64> = Vec::new();
                let mut j: usize = 0;
                while j < ids.len()
                    invariant
                        j <= ids@.len(),
                        out@ == ids@.subrange(0, j as int),
                    decreases ids@.len() - j,
                {
                    out.push(ids[j]);
                    j += 1;
                    assert(out@ =~= ids@.subrange(0, j as int));
                }
                assert(out@ =~= ids@);
                out
            },
            None => Vec::new(),
        }
    }

    /// The platform-wide counters.
    pub fn get_reward_metrics(&self) -> (r: RewardMetrics)
        requires
            self.wf(),
        ensures
            r == self@.metrics,
    {
        self.metrics
    }

    /// Publishes content for `creator` (whose authorization for this call
    /// the host reported in `authorized`) at logical time `now`, and returns
    /// its id: one more than the last id given out. The content is stored
    /// active with zeroed counters, its id is appended to the creator's list,
    /// the creator's content count and the content counters of the metrics
    /// go up by one. A creator without a profile gets the zero-valued one.
    pub fn create_content(
        &mut self,
        now: u64,
        authorized: bool,
        creator: Identity,
        title: String,
        content_type: String,
    ) -> (r: Result<u64, Error>)
        requires
            old(self).wf(),
        ensures
            final(self).wf(),
            (final(self)@, r) == create_content_step(
                old(self)@,
                creator@,
                authorized,
                title@,
                content_type@,
                now,
            ),
    {
        if !authorized {
            return Err(Error::Unauthorized);
        }
        let found = self.find_user(&creator);
        let pc: u64 = match found {
            Some(i) => self.users[i].profile.content_count,
            None => 0,
        };
        if self.content_count == u64::MAX || pc == u64::MAX || self.metrics.total_content
            == u64::MAX || self.metrics.active_content == u64::MAX {
            return Err(Error::Overflow);
        }
        let ghost s0 = self@;
        let ghost users0 = self.users@;
        let ghost who = creator@;
        let id = self.content_count + 1;
        let content = Content {
            content_id: id,
            creator: creator.duplicate(),
            title,
            content_type,
            timestamp: now,
            likes: 0,
            shares: 0,
            comments: 0,
            is_active: true,
        };
        self.contents.push(content);
        match found {
            Some(i) => {
                self.users[i].profile.content_count = pc + 1;
                self.users[i].content_ids.push(id);
                proof {
                    lemma_link_set(users0, self.user_map@, i as int, self.users@[i as int]);
                    assert(self.users@ == users0.update(i as int, self.users@[i as int]));
                }
            },
            None => {
                let mut ids: Vec<u64> = Vec::new();
                ids.push(id);
                let rec = UserRecord {
                    profile: UserProfile {
                        user_addr: creator,
                        reputation_score: 0,
                        total_rewards: 0,
                        content_count: 1,
                        joined_timestamp: 0,
                    },
                    content_ids: ids,
                };
                proof {
                    lemma_link_push(users0, self.user_map@, rec);
                    assert(rec@.content_ids =~= content_list_of(s0, who).push(id));
                }
                self.users.push(rec);
            },
        }
        let ghost t = create_content_step(s0, who, authorized, title@, content_type@, now).0;
        self.user_map = Ghost(t.users);
        self.metrics.total_content = self.metrics.total_content + 1;
        self.metrics.active_content = self.metrics.active_content + 1;
        self.content_count = id;
        proof {
            lemma_create_wf(s0, who, authorized, title@, content_type@, now);
            assert(self@.contents =~= t.contents);
            assert(self@.users =~= t.users);
        }
        Ok(id)
    }

    /// Records an engagement of type `engagement_type` by `user` (whose
    /// authorization the host reported in `authorized`) on active content
    /// `content_id`, and returns the reward: 1 for "like", 3 for "share",
    /// 2 for "comment". The matching counter of the content goes up by one;
    /// the reward is added to the total rewards and to the reputation of the
    /// content's creator, and to the rewards distributed by the platform.
    pub fn record_engagement(
        &mut self,
        authorized: bool,
        user: Identity,
        content_id: u64,
        engagement_type: String,
    ) -> (r: Result<u64, Error>)
        requires
            old(self).wf(),
        ensures
            final(self).wf(),
            (final(self)@, r) == record_engagement_step(
                old(self)@,
                user@,
                authorized,
                content_id,
                engagement_type@,
            ),
    {
        if !authorized {
            return Err(Error::Unauthorized);
        }
        let n = self.contents.len();
        assert(self@.contents.len() == n);
        if content_id == 0 || content_id - 1 >= n as u64 {
            return Err(Error::NotFound);
        }
        let ci = (content_id - 1) as usize;
        assert(self@.contents[ci as int] == self.contents@[ci as int]@);
        if !self.contents[ci].is_active {
            return Err(Error::NotFound);
        }
        let kind = match Engagement::parse(&engagement_type) {
            Some(e) => e,
            None => {
                return Err(Error::InvalidArgument);
            },
        };
        let amount = kind.reward();
        let counter_full = match kind {
            Engagement::Like => self.contents[ci].likes == u64::MAX,
            Engagement::Share => self.contents[ci].shares == u64::MAX,
            Engagement::Comment => self.contents[ci].comments == u64::MAX,
        };
        let found = self.find_user(&self.contents[ci].creator);
        let ui = match found {
            Some(i) => i,
            None => {
                proof {
                    assert(self@.users.contains_key(self@.contents[ci as int].creator));
                }
                return Err(Error::NotFound);
            },
        };
        if counter_full || self.users[ui].profile.total_rewards > u64::MAX - amount
            || self.users[ui].profile.reputation_score > u64::MAX - amount
            || self.metrics.total_rewards_distributed > u64::MAX - amount {
            return Err(Error::Overflow);
        }
        let ghost s0 = self@;
        let ghost users0 = self.users@;
        let ghost contents0 = self.contents@;
        let ghost t = record_engagement_step(s0, user@, authorized, content_id, engagement_type@).0;
        match kind {
            Engagement::Like => {
                self.contents[ci].likes = self.contents[ci].likes + 1;
            },
            Engagement::Share => {
                self.contents[ci].shares = self.contents[ci].shares + 1;
            },
            Engagement::Comment => {
                self.contents[ci].comments = self.contents[ci].comments + 1;
            },
        }
        self.users[ui].profile.total_rewards = self.users[ui].profile.total_rewards + amount;
        self.users[ui].profile.reputation_score = self.users[ui].profile.reputation_score + amount;
        self.metrics.total_rewards_distributed = self.metrics.total_rewards_distributed + amount;
        proof {
            lemma_link_set(users0, self.user_map@, ui as int, self.users@[ui as int]);
            assert(self.users@ == users0.update(ui as int, self.users@[ui as int]));
        }
        self.user_map = Ghost(t.users);
        proof {
            lemma_record_engagement_wf(s0, user@, authorized, content_id, engagement_type@);
            assert(self.contents@ == contents0.update(ci as int, self.contents@[ci as int]));
            assert(self@.contents =~= t.contents);
            assert(self@.users =~= t.users);
        }
        Ok(amount)
    }

    /// Registers `user` (whose authorization the host reported in
    /// `authorized`) at logical time `now` and returns the new profile:
    /// reputation 10, no rewards, no content. The user's content list starts
    /// empty and the user count of the metrics goes up by one. Refused with
    /// `AlreadyExists` when `user` has a profile.
    pub fn register_user(&mut self, now: u64, authorized: bool, user: Identity) -> (r: Result<
        UserProfile,
        Error,
    >)
        requires
            old(self).wf(),
        ensures
            final(self).wf(),
            register_user_step(old(self)@, user@, authorized, now) == (final(self)@, match r {
                Ok(p) => Ok(p@),
                Err(e) => Err(e),
            }),
    {
        if !authorized {
            return Err(Error::Unauthorized);
        }
        if self.find_user(&user).is_some() {
            return Err(Error::AlreadyExists);
        }
        if self.metrics.total_users == u64::MAX {
            return Err(Error::Overflow);
        }
        let ghost s0 = self@;
        let ghost who = user@;
        let profile = UserProfile {
            user_addr: user,
            reputation_score: 10,
            total_rewards: 0,
            content_count: 0,
            joined_timestamp: now,
        };
        let rec = UserRecord { profile: profile.duplicate(), content_ids: Vec::new() };
        proof {
            lemma_link_push(self.users@, self.user_map@, rec);
            lemma_register_user_wf(s0, who, authorized, now);
            assert(rec@.content_ids =~= Seq::<u64>::empty());
        }
        self.users.push(rec);
        self.user_map = Ghost(register_user_step(s0, who, authorized, now).0.users);
        self.metrics.total_users = self.metrics.total_users + 1;
        proof {
            assert(self@.contents =~= s0.contents);
        }
        Ok(profile)
    }

    /// Deactivates content `content_id` on behalf of its creator `creator`
    /// (whose authorization the host reported in `authorized`): the record
    /// stays, marked inactive, and the active content count goes down by one.
    /// Refused with `NotFound` for an unknown or already inactive id and with
    /// `Unauthorized` when `creator` did not create it.
    pub fn deactivate_content(&mut self, authorized: bool, creator: Identity, content_id: u64) -> (r:
        Result<(), Error>)
        requires
            old(self).wf(),
        ensures
            final(self).wf(),
            (final(self)@, r) == deactivate_content_step(
                old(self)@,
                creator@,
                authorized,
                content_id,
            ),
    {
        if !authorized {
            return Err(Error::Unauthorized);
        }
        let n = self.contents.len();
        assert(self@.contents.len() == n);
        if content_id == 0 || content_id - 1 >= n as u64 {
            return Err(Error::NotFound);
        }
        let ci = (content_id - 1) as usize;
        assert(self@.contents[ci as int] == self.contents@[ci as int]@);
        if !self.contents[ci].creator.same_as(&creator) {
            return Err(Error::Unauthorized);
        }
        if !self.contents[ci].is_active {
            return Err(Error::NotFound);
        }
        let ghost s0 = self@;
        let ghost contents0 = self.contents@;
        proof {
            lemma_deactivate_content_wf(s0, creator@, authorized, content_id);
        }
        self.contents[ci].is_active = false;
        self.metrics.active_content = self.metrics.active_content - 1;
        proof {
            let t = deactivate_content_step(s0, creator@, authorized, content_id).0;
            assert(self.contents@ == contents0.update(ci as int, self.contents@[ci as int]));
            assert(self@.contents =~= t.contents);
        }
        Ok(())
    }
}

} // verus!
