use vstd::prelude::*;
use crate::decimal::{parse_u64, parse_unsigned_spec};

verus! {

/// The Twitter account whose access token a request uses: the signed-in
/// account (by the identity cookie's text) when the server holds its token.
pub open spec fn signed_in_user(identity: Option<Seq<char>>, tokens: Set<u64>) -> Option<u64> {
    match identity {
        Some(s) => match parse_unsigned_spec(s, u64::MAX as int) {
            Ok(v) => if tokens.contains(v as u64) { Some(v as u64) } else { None },
            Err(_) => None,
        },
        None => None,
    }
}

fn holds_token(tokens: &Vec<u64>, user_id: u64) -> (r: bool)
    ensures
        r == tokens@.to_set().contains(user_id),
{
    let mut i: usize = 0;
    while i < tokens.len()
        invariant
            i <= tokens@.len(),
            forall|j: int| 0 <= j < i ==> tokens@[j] != user_id,
        decreases tokens@.len() - i,
    {
        if tokens[i] == user_id {
            assert(tokens@.to_set().contains(user_id)) by {
                assert(tokens@[i as int] == user_id);
            }
            return true;
        }
        i = i + 1;
    }
    proof {
        if tokens@.to_set().contains(user_id) {
            let j = choose|j: int| 0 <= j < tokens@.len() && tokens@[j] == user_id;
        }
    }
    false
}

/// The account whose token serves a request, if any: the identity must read
/// as a user id whose token the server holds (the ids of `tokens`).
pub fn get_access_token(identity: Option<&str>, tokens: &Vec<u64>) -> (r: Option<u64>)
    ensures
        r == signed_in_user(match identity { Some(s) => Some(s@), None => None }, tokens@.to_set()),
{
    match identity {
        None => None,
        Some(s) => match parse_u64(s) {
            Err(_) => None,
            Ok(user_id) => if holds_token(tokens, user_id) { Some(user_id) } else { None },
        },
    }
}

/// Which token serves a request that any token can serve: the signed-in
/// account's, else the app's own.
#[derive(Clone, Copy, Debug, PartialEq, Eq, Structural)]
pub enum TokenChoice {
    User(u64),
    Bearer,
}

/// Which token serves a request that any token can serve.
pub fn get_token(identity: Option<&str>, tokens: &Vec<u64>) -> (r: TokenChoice)
    ensures
        r == match signed_in_user(match identity { Some(s) => Some(s@), None => None }, tokens@.to_set()) {
            Some(u) => TokenChoice::User(u),
            None => TokenChoice::Bearer,
        },
{
    match get_access_token(identity, tokens) {
        Some(u) => TokenChoice::User(u),
        None => TokenChoice::Bearer,
    }
}

/// The query of a timeline request.
#[derive(Clone, Copy, Debug, PartialEq, Eq, Structural)]
pub struct TimelineQuery {
    pub replies: Option<bool>,
    pub rts: Option<bool>,
    pub count: Option<i32>,
    pub min_id: Option<u64>,
    pub max_id: Option<u64>,
}

/// A user's timeline: with replies and retweets unless the query says not,
/// and pages of 200 unless it says otherwise.
pub fn user_timeline_args(q: TimelineQuery) -> (r: (bool, bool, i32))
    ensures
        r.0 == match q.replies { Some(b) => b, None => true },
        r.1 == match q.rts { Some(b) => b, None => true },
        r.2 == match q.count { Some(c) => c, None => 200 },
{
    (
        match q.replies { Some(b) => b, None => true },
        match q.rts { Some(b) => b, None => true },
        match q.count { Some(c) => c, None => 200 },
    )
}

/// A list's timeline: without retweets unless the query asks for them, and
/// pages of 200 unless it says otherwise.
pub fn list_args(q: TimelineQuery) -> (r: (bool, i32))
    ensures
        r.0 == match q.rts { Some(b) => b, None => false },
        r.1 == match q.count { Some(c) => c, None => 200 },
{
    (
        match q.rts { Some(b) => b, None => false },
        match q.count { Some(c) => c, None => 200 },
    )
}

}
