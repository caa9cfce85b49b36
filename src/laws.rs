use vstd::prelude::*;

use crate::records::{ContentView, Error, ProfileView};
use crate::rules::{
    content_at, create_content_step, deactivate_content_step, empty_platform, has_content,
    lemma_create_wf, lemma_deactivate_content_wf, lemma_record_engagement_wf,
    lemma_register_user_wf, platform_wf, record_engagement_step, register_user_step, PlatformView,
};

verus! {

/// One call of a mutating operation, with the arguments it was given.
pub enum Operation {
    CreateContent {
        creator: Seq<char>,
        authorized: bool,
        title: Seq<char>,
        content_type: Seq<char>,
        now: u64,
    },
    RecordEngagement {
        user: Seq<char>,
        authorized: bool,
        content_id: u64,
        engagement_type: Seq<char>,
    },
    RegisterUser { user: Seq<char>, authorized: bool, now: u64 },
    DeactivateContent { creator: Seq<char>, authorized: bool, content_id: u64 },
}

/// What one call returned.
pub enum Outcome {
    Created(u64),
    Rewarded(u64),
    Registered(ProfileView),
    Deactivated,
    Refused(Error),
}

pub open spec fn is_authorized(op: Operation) -> bool {
    match op {
        Operation::CreateContent { authorized, .. } => authorized,
        Operation::RecordEngagement { authorized, .. } => authorized,
        Operation::RegisterUser { authorized, .. } => authorized,
        Operation::DeactivateContent { authorized, .. } => authorized,
    }
}

/// The state after `op` on `s`, and what `op` returned; each operation of
/// the platform ensures that it behaves as this says.
pub open spec fn step(s: PlatformView, op: Operation) -> (PlatformView, Outcome) {
    match op {
        Operation::CreateContent { creator, authorized, title, content_type, now } => {
            let (t, r) = create_content_step(s, creator, authorized, title, content_type, now);
            (t, match r {
                Ok(id) => Outcome::Created(id),
                Err(e) => Outcome::Refused(e),
            })
        },
        Operation::RecordEngagement { user, authorized, content_id, engagement_type } => {
            let (t, r) = record_engagement_step(s, user, authorized, content_id, engagement_type);
            (t, match r {
                Ok(a) => Outcome::Rewarded(a),
                Err(e) => Outcome::Refused(e),
            })
        },
        Operation::RegisterUser { user, authorized, now } => {
            let (t, r) = register_user_step(s, user, authorized, now);
            (t, match r {
                Ok(p) => Outcome::Registered(p),
                Err(e) => Outcome::Refused(e),
            })
        },
        Operation::DeactivateContent { creator, authorized, content_id } => {
            let (t, r) = deactivate_content_step(s, creator, authorized, content_id);
            (t, match r {
                Ok(_) => Outcome::Deactivated,
                Err(e) => Outcome::Refused(e),
            })
        },
    }
}

/// The state after the calls `ops`, in order, from `s`, and what each returned.
pub open spec fn run(s: PlatformView, ops: Seq<Operation>) -> (PlatformView, Seq<Outcome>)
    decreases ops.len(),
{
    if ops.len() == 0 {
        (s, Seq::empty())
    } else {
        let (m, rs) = run(s, ops.drop_last());
        let (t, r) = step(m, ops.last());
        (t, rs.push(r))
    }
}

/// The ids returned by the successful content creations among `rs`, in order.
pub open spec fn created_ids(rs: Seq<Outcome>) -> Seq<u64>
    decreases rs.len(),
{
    if rs.len() == 0 {
        Seq::empty()
    } else {
        let before = created_ids(rs.drop_last());
        match rs.last() {
            Outcome::Created(id) => before.push(id),
            _ => before,
        }
    }
}

pub open spec fn registered_count(rs: Seq<Outcome>) -> nat
    decreases rs.len(),
{
    if rs.len() == 0 {
        0
    } else {
        registered_count(rs.drop_last()) + if rs.last() is Registered {
            1nat
        } else {
            0nat
        }
    }
}

pub open spec fn deactivated_count(rs: Seq<Outcome>) -> nat
    decreases rs.len(),
{
    if rs.len() == 0 {
        0
    } else {
        deactivated_count(rs.drop_last()) + if rs.last() is Deactivated {
            1nat
        } else {
            0nat
        }
    }
}

/// The sum of the rewards returned by the successful engagements among `rs`.
pub open spec fn rewards_sum(rs: Seq<Outcome>) -> nat
    decreases rs.len(),
{
    if rs.len() == 0 {
        0
    } else {
        rewards_sum(rs.drop_last()) + match rs.last() {
            Outcome::Rewarded(a) => a as nat,
            _ => 0nat,
        }
    }
}

/// Every operation keeps the records consistent with one another.
pub proof fn lemma_step_wf(s: PlatformView, op: Operation)
    requires
        platform_wf(s),
    ensures
        platform_wf(step(s, op).0),
{
    match op {
        Operation::CreateContent { creator, authorized, title, content_type, now } => {
            lemma_create_wf(s, creator, authorized, title, content_type, now);
        },
        Operation::RecordEngagement { user, authorized, content_id, engagement_type } => {
            lemma_record_engagement_wf(s, user, authorized, content_id, engagement_type);
        },
        Operation::RegisterUser { user, authorized, now } => {
            lemma_register_user_wf(s, user, authorized, now);
        },
        Operation::DeactivateContent { creator, authorized, content_id } => {
            lemma_deactivate_content_wf(s, creator, authorized, content_id);
        },
    }
}

/// Content ids are handed out one by one: over any sequence of calls, the
/// successful creations return the ids following the last one given out
/// before, in increasing order, with no gap and no repeat.
pub proof fn lemma_content_ids_consecutive(s: PlatformView, ops: Seq<Operation>)
    ensures
        run(s, ops).0.content_count == s.content_count + created_ids(run(s, ops).1).len(),
        forall|i: int|
            0 <= i < created_ids(run(s, ops).1).len() ==> #[trigger] created_ids(
                run(s, ops).1,
            )[i] == s.content_count + 1 + i,
    decreases ops.len(),
{
    if ops.len() > 0 {
        lemma_content_ids_consecutive(s, ops.drop_last());
        let (m, rs) = run(s, ops.drop_last());
        let (t, r) = step(m, ops.last());
        assert(run(s, ops).1 == rs.push(r));
        assert(rs.push(r).drop_last() == rs);
    }
}

/// The platform counters follow what the calls returned: total content
/// grows with each creation, active content with each creation and shrinks
/// with each deactivation, the user count grows with each registration, and
/// the rewards distributed grow by each reward returned.
pub proof fn lemma_metrics_follow_outcomes(s: PlatformView, ops: Seq<Operation>)
    requires
        platform_wf(s),
    ensures
        platform_wf(run(s, ops).0),
        run(s, ops).0.metrics.total_content == s.metrics.total_content + created_ids(
            run(s, ops).1,
        ).len(),
        run(s, ops).0.metrics.active_content + deactivated_count(run(s, ops).1)
            == s.metrics.active_content + created_ids(run(s, ops).1).len(),
        run(s, ops).0.metrics.total_users == s.metrics.total_users + registered_count(
            run(s, ops).1,
        ),
        run(s, ops).0.metrics.total_rewards_distributed == s.metrics.total_rewards_distributed
            + rewards_sum(run(s, ops).1),
    decreases ops.len(),
{
    if ops.len() > 0 {
        lemma_metrics_follow_outcomes(s, ops.drop_last());
        let (m, rs) = run(s, ops.drop_last());
        let (t, r) = step(m, ops.last());
        lemma_step_wf(m, ops.last());
        if let Operation::DeactivateContent { creator, authorized, content_id } = ops.last() {
            lemma_deactivate_content_wf(m, creator, authorized, content_id);
        }
        assert(run(s, ops).1 == rs.push(r));
        assert(rs.push(r).drop_last() == rs);
    }
}

/// From an empty platform, the counters equal the number of successful
/// creations, creations less deactivations, registrations, and the sum of
/// the rewards returned.
pub proof fn lemma_metrics_from_empty(ops: Seq<Operation>)
    ensures
        run(empty_platform(), ops).0.metrics.total_content == created_ids(
            run(empty_platform(), ops).1,
        ).len(),
        run(empty_platform(), ops).0.metrics.active_content + deactivated_count(
            run(empty_platform(), ops).1,
        ) == created_ids(run(empty_platform(), ops).1).len(),
        run(empty_platform(), ops).0.metrics.total_users == registered_count(
            run(empty_platform(), ops).1,
        ),
        run(empty_platform(), ops).0.metrics.total_rewards_distributed == rewards_sum(
            run(empty_platform(), ops).1,
        ),
{
    let e = empty_platform();
    assert(e.contents =~= Seq::<ContentView>::empty());
    assert(platform_wf(e));
    lemma_metrics_follow_outcomes(e, ops);
}

/// A call without authorization for the identity it acts as is refused with
/// `Unauthorized` and changes nothing.
pub proof fn lemma_unauthorized_changes_nothing(s: PlatformView, op: Operation)
    requires
        !is_authorized(op),
    ensures
        step(s, op) == (s, Outcome::Refused(Error::Unauthorized)),
{
}

/// Only the creator of existing content can deactivate it; anyone else is
/// refused with `Unauthorized` and nothing changes.
pub proof fn lemma_only_creator_deactivates(
    s: PlatformView,
    caller: Seq<char>,
    authorized: bool,
    content_id: u64,
)
    requires
        platform_wf(s),
        has_content(s, content_id),
        content_at(s, content_id).creator != caller,
    ensures
        deactivate_content_step(s, caller, authorized, content_id) == (
            s,
            Err::<(), Error>(Error::Unauthorized),
        ),
{
}

/// Deactivating the same content twice: the second call is refused and
/// changes nothing, so the active count goes down once at most.
pub proof fn lemma_deactivate_twice(
    s: PlatformView,
    creator: Seq<char>,
    authorized: bool,
    content_id: u64,
)
    requires
        platform_wf(s),
    ensures
        ({
            let (s1, r1) = deactivate_content_step(s, creator, authorized, content_id);
            let (s2, r2) = deactivate_content_step(s1, creator, authorized, content_id);
            &&& r1 is Ok ==> !content_at(s1, content_id).is_active
            &&& r1 is Ok ==> s1.metrics.active_content + 1 == s.metrics.active_content
            &&& r1 is Err ==> s1 == s
            &&& r2 is Err
            &&& s2 == s1
        }),
{
    lemma_deactivate_content_wf(s, creator, authorized, content_id);
}

/// Deactivation is for good: content that is inactive stays stored and
/// inactive whatever calls follow.
pub proof fn lemma_inactive_stays_inactive(s: PlatformView, ops: Seq<Operation>, content_id: u64)
    requires
        has_content(s, content_id),
        !content_at(s, content_id).is_active,
    ensures
        has_content(run(s, ops).0, content_id),
        !content_at(run(s, ops).0, content_id).is_active,
    decreases ops.len(),
{
    if ops.len() > 0 {
        lemma_inactive_stays_inactive(s, ops.drop_last(), content_id);
    }
}

/// The content id that `op` deactivates, if it is a deactivation.
pub open spec fn deactivation_target(op: Operation) -> u64 {
    match op {
        Operation::DeactivateContent { content_id, .. } => content_id,
        _ => 0,
    }
}

pub proof fn lemma_step_keeps_inactive(s: PlatformView, op: Operation, content_id: u64)
    requires
        has_content(s, content_id),
        !content_at(s, content_id).is_active,
    ensures
        has_content(step(s, op).0, content_id),
        !content_at(step(s, op).0, content_id).is_active,
{
}

/// Over any sequence of calls, every successful deactivation is of a
/// different content id, and the content it deactivated stays stored and
/// inactive: the active count never goes down twice for one id.
pub proof fn lemma_deactivations_distinct(s: PlatformView, ops: Seq<Operation>)
    ensures
        run(s, ops).1.len() == ops.len(),
        forall|i: int|
            0 <= i < ops.len() && (#[trigger] run(s, ops).1[i]) is Deactivated ==> {
                &&& has_content(run(s, ops).0, deactivation_target(ops[i]))
                &&& !content_at(run(s, ops).0, deactivation_target(ops[i])).is_active
            },
        forall|i: int, j: int|
            0 <= i < j < ops.len() && (#[trigger] run(s, ops).1[i]) is Deactivated && (
            #[trigger] run(s, ops).1[j]) is Deactivated ==> deactivation_target(ops[i])
                != deactivation_target(ops[j]),
    decreases ops.len(),
{
    if ops.len() > 0 {
        let pre = ops.drop_last();
        lemma_deactivations_distinct(s, pre);
        let (m, rs) = run(s, pre);
        let op = ops.last();
        let (t, r) = step(m, op);
        let n = ops.len() - 1;
        assert(run(s, ops).1 == rs.push(r));
        assert forall|i: int|
            0 <= i < ops.len() && (#[trigger] run(s, ops).1[i]) is Deactivated implies {
            &&& has_content(t, deactivation_target(ops[i]))
            &&& !content_at(t, deactivation_target(ops[i])).is_active
        } by {
            if i < n {
                assert(ops[i] == pre[i]);
                assert(run(s, ops).1[i] == rs[i]);
                lemma_step_keeps_inactive(m, op, deactivation_target(pre[i]));
            }
        }
        assert forall|i: int, j: int|
            0 <= i < j < ops.len() && (#[trigger] run(s, ops).1[i]) is Deactivated && (
            #[trigger] run(s, ops).1[j]) is Deactivated implies deactivation_target(ops[i])
            != deactivation_target(ops[j]) by {
            assert(ops[i] == pre[i]);
            assert(run(s, ops).1[i] == rs[i]);
            if j < n {
                assert(ops[j] == pre[j]);
                assert(run(s, ops).1[j] == rs[j]);
            }
        }
    }
}

} // verus!
