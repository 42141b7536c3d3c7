//! Timeline identities and the per-timeline ingestion state.

use vstd::prelude::*;

use crate::scheduler::{record_built, recs, strs, Record, RecordV};
use crate::twitter_data::{user_views, Media, Tweet, TweetV, TweetsResponse, UserV};

verus! {

/// The views of a sequence of tweets.
pub open spec fn tweet_views(s: Seq<Tweet>) -> Seq<TweetV> {
    s.map_values(|t: Tweet| t@)
}

/// The record one tweet of a typed response resolves to; a typed
/// response carries no media, so the record has no attachments.
pub open spec fn plain_record(t: TweetV, users: Seq<UserV>) -> Option<RecordV> {
    record_built(t, Seq::<Seq<char>>::empty(), users, Seq::<crate::twitter_data::MediaV>::empty())
}

/// The records a response's tweets resolve to, newest tweet last (the
/// response lists tweets newest first and they are enqueued oldest
/// first); nothing if any author is missing.
pub open spec fn built_all(data: Seq<TweetV>, users: Seq<UserV>) -> Option<Seq<RecordV>>
    decreases data.len(),
{
    if data.len() == 0 {
        Some(Seq::<RecordV>::empty())
    } else {
        match built_all(data.drop_first(), users) {
            None => None,
            Some(rest) => match plain_record(data.first(), users) {
                None => None,
                Some(rec) => Some(rest.push(rec)),
            },
        }
    }
}

proof fn lemma_built_all_suffix_none(data: Seq<TweetV>, users: Seq<UserV>, j: int)
    requires
        0 <= j <= data.len(),
        built_all(data.skip(j), users) is None,
    ensures
        built_all(data, users) is None,
    decreases j,
{
    if j > 0 {
        assert(data.skip(j - 1).drop_first() =~= data.skip(j));
        assert(built_all(data.skip(j - 1), users) is None);
        lemma_built_all_suffix_none(data, users, j - 1);
    } else {
        assert(data.skip(0) =~= data);
    }
}

/// How one absorbed response relates the newest-seen record id and the
/// records handed back: an empty result set yields no records and keeps
/// the id; a malformed response yields nothing and keeps the id;
/// otherwise the resolved records come back, oldest first, and the id
/// becomes the newest tweet's.
pub open spec fn response_absorbed(
    resp: TweetsResponse,
    since_pre: Option<String>,
    since_post: Option<String>,
    out: Option<Seq<RecordV>>,
) -> bool {
    if resp.meta.result_count == 0 {
        &&& out matches Some(rv) && rv.len() == 0
        &&& since_post == since_pre
    } else {
        match (resp.data, resp.includes) {
            (Some(data), Some(inc)) => match built_all(
                tweet_views(data@),
                user_views(inc.users@),
            ) {
                Some(rv) => {
                    &&& out == Some(rv)
                    &&& (if data@.len() > 0 {
                        since_post matches Some(s) && s@ == data@[0]@.id
                    } else {
                        since_post == since_pre
                    })
                },
                None => out is None && since_post == since_pre,
            },
            _ => out is None && since_post == since_pre,
        }
    }
}

/// Resolves a whole timeline response: the records to enqueue, oldest
/// first, and the newest record id seen (the first tweet listed).
/// An empty result set resolves to no records; a malformed response
/// (tweets or authors missing, or an unknown author) resolves to
/// nothing and must be absorbed as a transient error.
fn collect_records(resp: &TweetsResponse) -> (r: Option<(Vec<Record>, Option<String>)>)
    ensures
        ({
            if resp.meta.result_count == 0 {
                r matches Some(p) && p.0@.len() == 0 && p.1 is None
            } else {
                match (resp.data, resp.includes) {
                    (Some(data), Some(inc)) => match built_all(
                        tweet_views(data@),
                        user_views(inc.users@),
                    ) {
                        Some(rv) => {
                            &&& r matches Some(p) && recs(p.0@) == rv
                            &&& (if data@.len() > 0 {
                                r matches Some(p) && p.1 matches Some(s) && s@ == data@[0]@.id
                            } else {
                                r matches Some(p) && p.1 is None
                            })
                        },
                        None => r is None,
                    },
                    _ => r is None,
                }
            }
        }),
{
    if resp.meta.result_count == 0 {
        return Some((Vec::new(), None));
    }
    let data = match &resp.data {
        Some(d) => d,
        None => {
            return None;
        },
    };
    let inc = match &resp.includes {
        Some(i) => i,
        None => {
            return None;
        },
    };
    let ghost dv = tweet_views(data@);
    let ghost uv = user_views(inc.users@);
    proof {
        assert(resp.data == Some(*data));
        assert(resp.includes == Some(*inc));
    }
    let empty_keys: Vec<String> = Vec::new();
    let empty_medias: Vec<Media> = Vec::new();
    let mut records: Vec<Record> = Vec::new();
    let mut j: usize = data.len();
    proof {
        assert(dv.skip(data@.len() as int).len() == 0);
        assert(recs(records@) =~= Seq::<RecordV>::empty());
    }
    while j > 0
        invariant
            j <= data@.len(),
            dv == tweet_views(data@),
            uv == user_views(inc.users@),
            dv.len() == data@.len(),
            empty_keys@.len() == 0,
            empty_medias@.len() == 0,
            built_all(dv.skip(j as int), uv) == Some(recs(records@)),
            resp.data == Some(*data),
            resp.includes == Some(*inc),
            resp.meta.result_count != 0,
        decreases j,
    {
        j -= 1;
        proof {
            assert(dv.skip(j as int).drop_first() =~= dv.skip(j + 1));
            assert(dv.skip(j as int)[0] == dv[j as int]);
            assert(dv[j as int] == data@[j as int]@);
            assert(strs(empty_keys@) =~= Seq::<Seq<char>>::empty());
            assert(crate::twitter_data::media_views(empty_medias@) =~= Seq::<
                crate::twitter_data::MediaV,
            >::empty());
        }
        let rec = match crate::scheduler::into(&data[j], &empty_keys, &inc.users, &empty_medias) {
            Some(rec) => rec,
            None => {
                proof {
                    assert(built_all(dv.skip(j as int), uv) is None);
                    lemma_built_all_suffix_none(dv, uv, j as int);
                }
                return None;
            },
        };
        let ghost prev = records@;
        records.push(rec);
        proof {
            assert(recs(records@) =~= recs(prev).push(rec@));
            assert(built_all(dv.skip(j as int), uv) == Some(recs(records@)));
        }
    }
    proof {
        assert(dv.skip(0) =~= dv);
    }
    let newest = if data.len() > 0 {
        Some(data[0].id.clone())
    } else {
        None
    };
    Some((records, newest))
}

/// Which timeline a record belongs to: the user's home timeline or a
/// search timeline for some query.
#[derive(Debug)]
pub enum Timeline {
    User,
    Search { query: String },
}

/// The mathematical value of a `Timeline`.
#[verifier::ext_equal]
pub ghost enum TimelineV {
    User,
    Search(Seq<char>),
}

impl View for Timeline {
    type V = TimelineV;

    open spec fn view(&self) -> TimelineV {
        match self {
            Timeline::User => TimelineV::User,
            Timeline::Search { query } => TimelineV::Search(query@),
        }
    }
}

impl Clone for Timeline {
    /// Copies the timeline tag; the copy is equal to the original.
    fn clone(&self) -> (r: Self)
        ensures
            r == *self,
    {
        match self {
            Timeline::User => Timeline::User,
            Timeline::Search { query } => Timeline::Search { query: query.clone() },
        }
    }
}

impl PartialEq for Timeline {
    fn eq(&self, other: &Self) -> (r: bool) {
        match (self, other) {
            (Timeline::User, Timeline::User) => true,
            (Timeline::Search { query: a }, Timeline::Search { query: b }) => *a == *b,
            _ => false,
        }
    }
}

impl vstd::std_specs::cmp::PartialEqSpecImpl for Timeline {
    open spec fn obeys_eq_spec() -> bool {
        true
    }

    open spec fn eq_spec(&self, other: &Self) -> bool {
        self@ == other@
    }
}

/// Ingestion state of the search timeline: the tracked query and the
/// newest record id seen so far.
pub struct SearchTimelineContext {
    pub query_opt: Option<String>,
    pub since_id_opt: Option<String>,
}

impl SearchTimelineContext {
    /// The initial search-ingestion state, tracking the default query.
    pub fn new() -> (r: Self)
        ensures
            r.query_opt matches Some(q) && q@ == "#Twitter"@,
            r.since_id_opt is None,
    {
        Self { query_opt: Some("#Twitter".to_owned()), since_id_opt: None }
    }

    /// Adopts a (possibly new) search query: a changed query forgets the
    /// newest-seen record id, so the next request starts afresh.
    pub fn retarget(&mut self, query: &String)
        ensures
            final(self).query_opt == Some(*query),
            (match old(self).query_opt {
                Some(q) => q@ == query@,
                None => false,
            }) ==> final(self).since_id_opt == old(self).since_id_opt,
            !(match old(self).query_opt {
                Some(q) => q@ == query@,
                None => false,
            }) ==> final(self).since_id_opt is None,
    {
        let same = match &self.query_opt {
            Some(q) => *q == *query,
            None => false,
        };
        if !same {
            self.since_id_opt = None;
        }
        self.query_opt = Some(query.clone());
    }

    /// Takes the records of one search response and remembers the newest
    /// record id for the next request.  A malformed response yields
    /// nothing and changes nothing: a transient error.
    pub fn absorb_response(&mut self, resp: &TweetsResponse) -> (r: Option<Vec<Record>>)
        ensures
            final(self).query_opt == old(self).query_opt,
            response_absorbed(
                *resp,
                old(self).since_id_opt,
                final(self).since_id_opt,
                match r {
                    Some(v) => Some(recs(v@)),
                    None => None,
                },
            ),
    {
        match collect_records(resp) {
            Some((records, newest)) => {
                if let Some(id) = newest {
                    self.since_id_opt = Some(id);
                }
                Some(records)
            },
            None => None,
        }
    }
}

/// Ingestion state of the user timeline: the resolved user id and the
/// newest record id seen so far.
pub struct UserTimelineContext {
    pub user_id_opt: Option<String>,
    pub since_id_opt: Option<String>,
}

impl UserTimelineContext {
    /// The initial user-ingestion state, before the user id is known.
    pub fn new() -> (r: Self)
        ensures
            r.user_id_opt is None,
            r.since_id_opt is None,
    {
        Self { user_id_opt: None, since_id_opt: None }
    }

    /// Takes the records of one home-timeline response and remembers the
    /// newest record id for the next request.  A malformed response
    /// yields nothing and changes nothing: a transient error.
    pub fn absorb_response(&mut self, resp: &TweetsResponse) -> (r: Option<Vec<Record>>)
        ensures
            final(self).user_id_opt == old(self).user_id_opt,
            response_absorbed(
                *resp,
                old(self).since_id_opt,
                final(self).since_id_opt,
                match r {
                    Some(v) => Some(recs(v@)),
                    None => None,
                },
            ),
    {
        match collect_records(resp) {
            Some((records, newest)) => {
                if let Some(id) = newest {
                    self.since_id_opt = Some(id);
                }
                Some(records)
            },
            None => None,
        }
    }
}

} // verus!
