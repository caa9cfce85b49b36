use vstd::prelude::*;

verus! {

/// The counter of a content record that an engagement bumps.
#[derive(Clone, Copy, Debug, PartialEq, Eq, Structural)]
pub enum Engagement {
    Like,
    Share,
    Comment,
}

/// The engagement named by `t`, if the reward table knows it.
pub open spec fn engagement_of(t: Seq<char>) -> Option<Engagement> {
    if t == seq!['l', 'i', 'k', 'e'] {
        Some(Engagement::Like)
    } else if t == seq!['s', 'h', 'a', 'r', 'e'] {
        Some(Engagement::Share)
    } else if t == seq!['c', 'o', 'm', 'm', 'e', 'n', 't'] {
        Some(Engagement::Comment)
    } else {
        None
    }
}

/// The reward that one engagement of kind `e` earns the content's creator.
pub open spec fn reward_spec(e: Engagement) -> u64 {
    match e {
        Engagement::Like => 1,
        Engagement::Share => 3,
        Engagement::Comment => 2,
    }
}

impl Engagement {
    /// Reads an engagement type; `None` for any text but the three known ones.
    pub fn parse(t: &String) -> (r: Option<Engagement>)
        ensures
            r == engagement_of(t@),
    {
        proof {
            reveal_strlit("like");
            reveal_strlit("share");
            reveal_strlit("comment");
            assert("like"@ =~= seq!['l', 'i', 'k', 'e']);
            assert("share"@ =~= seq!['s', 'h', 'a', 'r', 'e']);
            assert("comment"@ =~= seq!['c', 'o', 'm', 'm', 'e', 'n', 't']);
        }
        if *t == "like".to_owned() {
            Some(Engagement::Like)
        } else if *t == "share".to_owned() {
            Some(Engagement::Share)
        } else if *t == "comment".to_owned() {
            Some(Engagement::Comment)
        } else {
            None
        }
    }

    pub fn reward(self) -> (r: u64)
        ensures
            r == reward_spec(self),
    {
        match self {
            Engagement::Like => 1,
            Engagement::Share => 3,
            Engagement::Comment => 2,
        }
    }
}

} // verus!
