use social_rewards::{Error, Identity, SocialMediaRewardsContract};

fn id(s: &str) -> Identity {
    Identity::new(s.to_string())
}

fn text(s: &str) -> String {
    s.to_string()
}

#[test]
fn register_create_and_like() {
    let mut p = SocialMediaRewardsContract::new();
    let a = id("A");
    let profile = p.register_user(100, true, a.clone()).unwrap();
    assert_eq!(profile.user_addr.address, "A");
    assert_eq!(profile.reputation_score, 10);
    assert_eq!(profile.total_rewards, 0);
    assert_eq!(profile.content_count, 0);
    assert_eq!(profile.joined_timestamp, 100);

    let cid = p.create_content(200, true, a.clone(), text("hello"), text("post")).unwrap();
    assert_eq!(cid, 1);
    let c = p.get_content(1);
    assert!(c.is_active);
    assert_eq!(c.title, "hello");
    assert_eq!(c.content_type, "post");
    assert_eq!(c.timestamp, 200);
    assert_eq!(c.creator.address, "A");

    let reward = p.record_engagement(true, id("B"), 1, text("like")).unwrap();
    assert_eq!(reward, 1);
    assert_eq!(p.get_content(1).likes, 1);
    let pa = p.get_user_profile(a.clone());
    assert_eq!(pa.reputation_score, 11);
    assert_eq!(pa.total_rewards, 1);
    assert_eq!(pa.content_count, 1);
    assert_eq!(p.get_reward_metrics().total_rewards_distributed, 1);
    let pb = p.get_user_profile(id("B"));
    assert_eq!(pb.total_rewards, 0);
    assert_eq!(pb.reputation_score, 0);
}

#[test]
fn unknown_engagement_type_changes_nothing() {
    let mut p = SocialMediaRewardsContract::new();
    let a = id("A");
    p.register_user(1, true, a.clone()).unwrap();
    p.create_content(2, true, a.clone(), text("hello"), text("post")).unwrap();
    let before = p.get_reward_metrics();
    assert_eq!(
        p.record_engagement(true, a.clone(), 1, text("dislike")),
        Err(Error::InvalidArgument)
    );
    let c = p.get_content(1);
    assert_eq!((c.likes, c.shares, c.comments), (0, 0, 0));
    let pa = p.get_user_profile(a);
    assert_eq!((pa.reputation_score, pa.total_rewards), (10, 0));
    assert_eq!(p.get_reward_metrics(), before);
}

#[test]
fn second_registration_refused() {
    let mut p = SocialMediaRewardsContract::new();
    let a = id("A");
    assert!(p.register_user(1, true, a.clone()).is_ok());
    assert_eq!(p.get_reward_metrics().total_users, 1);
    assert_eq!(p.register_user(2, true, a.clone()).err(), Some(Error::AlreadyExists));
    assert_eq!(p.get_reward_metrics().total_users, 1);
    assert_eq!(p.get_user_profile(a).joined_timestamp, 1);
}

#[test]
fn share_and_comment_rewards() {
    let mut p = SocialMediaRewardsContract::new();
    let a = id("A");
    p.create_content(1, true, a.clone(), text("t"), text("video")).unwrap();
    assert_eq!(p.record_engagement(true, id("B"), 1, text("share")), Ok(3));
    assert_eq!(p.record_engagement(true, id("C"), 1, text("comment")), Ok(2));
    let c = p.get_content(1);
    assert_eq!((c.likes, c.shares, c.comments), (0, 1, 1));
    let pa = p.get_user_profile(a);
    assert_eq!(pa.total_rewards, 5);
    assert_eq!(pa.reputation_score, 5);
    assert_eq!(p.get_reward_metrics().total_rewards_distributed, 5);
}

#[test]
fn content_ids_are_consecutive() {
    let mut p = SocialMediaRewardsContract::new();
    let a = id("A");
    let b = id("B");
    let mut ids = Vec::new();
    for k in 0..5u64 {
        let who = if k % 2 == 0 { a.clone() } else { b.clone() };
        ids.push(p.create_content(k, true, who, text("x"), text("post")).unwrap());
        // a refused call in between must not use up an id
        assert!(p.create_content(k, false, a.clone(), text("y"), text("post")).is_err());
    }
    assert_eq!(ids, vec![1, 2, 3, 4, 5]);
    assert_eq!(p.get_user_content_list(a), vec![1, 3, 5]);
    assert_eq!(p.get_user_content_list(b), vec![2, 4]);
}

#[test]
fn metrics_follow_calls() {
    let mut p = SocialMediaRewardsContract::new();
    let a = id("A");
    let b = id("B");
    p.register_user(1, true, a.clone()).unwrap();
    p.register_user(1, true, b.clone()).unwrap();
    p.create_content(2, true, a.clone(), text("1"), text("post")).unwrap();
    p.create_content(2, true, a.clone(), text("2"), text("post")).unwrap();
    p.create_content(2, true, b.clone(), text("3"), text("post")).unwrap();
    p.record_engagement(true, b.clone(), 1, text("like")).unwrap();
    p.record_engagement(true, a.clone(), 3, text("share")).unwrap();
    p.deactivate_content(true, a.clone(), 2).unwrap();
    let m = p.get_reward_metrics();
    assert_eq!(m.total_content, 3);
    assert_eq!(m.active_content, 2);
    assert_eq!(m.total_users, 2);
    assert_eq!(m.total_rewards_distributed, 4);
}

#[test]
fn reads_repeat() {
    let mut p = SocialMediaRewardsContract::new();
    let a = id("A");
    p.create_content(9, true, a.clone(), text("t"), text("article")).unwrap();
    let c1 = p.get_content(1);
    let c2 = p.get_content(1);
    assert_eq!(c1.title, c2.title);
    assert_eq!((c1.content_id, c1.likes, c1.is_active), (c2.content_id, c2.likes, c2.is_active));
    let first = p.get_user_profile(a.clone());
    let second = p.get_user_profile(a.clone());
    assert_eq!((first.content_count, first.reputation_score), (second.content_count, second.reputation_score));
    assert_eq!(p.get_user_content_list(a.clone()), p.get_user_content_list(a));
    assert_eq!(p.get_reward_metrics(), p.get_reward_metrics());
}

#[test]
fn unauthorized_calls_change_nothing() {
    let mut p = SocialMediaRewardsContract::new();
    let a = id("A");
    p.create_content(1, true, a.clone(), text("t"), text("post")).unwrap();
    let before = p.get_reward_metrics();
    assert_eq!(p.create_content(2, false, a.clone(), text("u"), text("post")), Err(Error::Unauthorized));
    assert_eq!(p.record_engagement(false, id("B"), 1, text("like")), Err(Error::Unauthorized));
    assert_eq!(p.register_user(3, false, id("C")).err(), Some(Error::Unauthorized));
    assert_eq!(p.deactivate_content(false, a.clone(), 1), Err(Error::Unauthorized));
    assert_eq!(p.deactivate_content(true, id("B"), 1), Err(Error::Unauthorized));
    assert_eq!(p.get_reward_metrics(), before);
    assert!(p.get_content(1).is_active);
    assert_eq!(p.get_content(1).likes, 0);
    assert_eq!(p.get_content(2).content_id, 0);
    assert_eq!(p.get_user_profile(id("C")).reputation_score, 0);
}

#[test]
fn deactivation_is_soft_and_once() {
    let mut p = SocialMediaRewardsContract::new();
    let a = id("A");
    p.create_content(1, true, a.clone(), text("t"), text("post")).unwrap();
    p.create_content(1, true, a.clone(), text("u"), text("post")).unwrap();
    assert_eq!(p.get_reward_metrics().active_content, 2);
    assert_eq!(p.deactivate_content(true, a.clone(), 1), Ok(()));
    assert_eq!(p.get_reward_metrics().active_content, 1);
    let c = p.get_content(1);
    assert_eq!(c.content_id, 1);
    assert!(!c.is_active);
    assert_eq!(p.deactivate_content(true, a.clone(), 1), Err(Error::NotFound));
    assert_eq!(p.get_reward_metrics().active_content, 1);
    assert_eq!(p.get_reward_metrics().total_content, 2);
    assert_eq!(p.get_user_content_list(a.clone()), vec![1, 2]);
    assert_eq!(p.get_user_profile(a).content_count, 2);
    assert_eq!(p.record_engagement(true, id("B"), 1, text("like")), Err(Error::NotFound));
}

#[test]
fn missing_records_give_sentinels() {
    let p = SocialMediaRewardsContract::new();
    let c = p.get_content(7);
    assert_eq!(c.content_id, 0);
    assert_eq!(c.creator.address, "");
    assert_eq!(c.title, "");
    assert_eq!(c.content_type, "");
    assert!(!c.is_active);
    let u = p.get_user_profile(id("Z"));
    assert_eq!(u.user_addr.address, "Z");
    assert_eq!((u.reputation_score, u.total_rewards, u.content_count, u.joined_timestamp), (0, 0, 0, 0));
    assert!(p.get_user_content_list(id("Z")).is_empty());
    let m = p.get_reward_metrics();
    assert_eq!((m.total_content, m.total_users, m.total_rewards_distributed, m.active_content), (0, 0, 0, 0));
    assert_eq!(p.get_content(0).content_id, 0);
}

#[test]
fn engagement_and_deactivation_on_missing_content() {
    let mut p = SocialMediaRewardsContract::new();
    assert_eq!(p.record_engagement(true, id("A"), 0, text("like")), Err(Error::NotFound));
    assert_eq!(p.record_engagement(true, id("A"), 1, text("like")), Err(Error::NotFound));
    assert_eq!(p.deactivate_content(true, id("A"), 1), Err(Error::NotFound));
    assert_eq!(p.deactivate_content(true, id("A"), u64::MAX), Err(Error::NotFound));
}

#[test]
fn creating_without_registration_makes_a_default_profile() {
    let mut p = SocialMediaRewardsContract::new();
    let a = id("A");
    p.create_content(5, true, a.clone(), text("t"), text("post")).unwrap();
    let pa = p.get_user_profile(a.clone());
    assert_eq!((pa.reputation_score, pa.content_count, pa.joined_timestamp), (0, 1, 0));
    assert_eq!(p.get_reward_metrics().total_users, 0);
    assert_eq!(p.register_user(6, true, a).err(), Some(Error::AlreadyExists));
}

#[test]
fn engagement_type_is_exact() {
    let mut p = SocialMediaRewardsContract::new();
    p.create_content(1, true, id("A"), text("t"), text("post")).unwrap();
    for t in ["Like", "likes", "", " like", "share "] {
        assert_eq!(p.record_engagement(true, id("B"), 1, text(t)), Err(Error::InvalidArgument));
    }
    assert_eq!(p.get_reward_metrics().total_rewards_distributed, 0);
}
