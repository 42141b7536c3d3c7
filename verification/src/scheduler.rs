//! Per-timeline queue state: the `Record` model and the `Context` that owns
//! the wait / ready / played queues and the speech cache.

use vstd::prelude::*;

use crate::twitter_data::{media_views, user_views, Media, MediaV, Tweet, TweetV, User, UserV};
use crate::voicegen_agent::{speech_ids, speeches, Speech, SpeechV};
use crate::voicegen_data::NetAddr;

verus! {

/// One timeline item, immutable once created.
#[derive(Debug)]
pub struct Record {
    pub tweet_id: String,
    pub author_id: String,
    pub created_at: String,
    pub text: String,
    pub name: String,
    pub username: String,
    pub profile_image_url: String,
    pub attachments: Vec<(String, String)>,
}

/// The mathematical value of a `Record`: every string as a sequence of
/// characters, attachments as (kind, url) pairs.
#[verifier::ext_equal]
pub ghost struct RecordV {
    pub tweet_id: Seq<char>,
    pub author_id: Seq<char>,
    pub created_at: Seq<char>,
    pub text: Seq<char>,
    pub name: Seq<char>,
    pub username: Seq<char>,
    pub profile_image_url: Seq<char>,
    pub attachments: Seq<(Seq<char>, Seq<char>)>,
}

/// The view of a sequence of string pairs.
pub open spec fn pairs_view(s: Seq<(String, String)>) -> Seq<(Seq<char>, Seq<char>)> {
    s.map_values(|p: (String, String)| (p.0@, p.1@))
}

impl View for Record {
    type V = RecordV;

    open spec fn view(&self) -> RecordV {
        RecordV {
            tweet_id: self.tweet_id@,
            author_id: self.author_id@,
            created_at: self.created_at@,
            text: self.text@,
            name: self.name@,
            username: self.username@,
            profile_image_url: self.profile_image_url@,
            attachments: pairs_view(self.attachments@),
        }
    }
}

/// Copies a vector of string pairs, preserving its view.
fn clone_pairs(v: &Vec<(String, String)>) -> (r: Vec<(String, String)>)
    ensures
        pairs_view(r@) == pairs_view(v@),
{
    let mut r: Vec<(String, String)> = Vec::new();
    let mut i: usize = 0;
    while i < v.len()
        invariant
            i <= v.len(),
            pairs_view(r@) == pairs_view(v@.take(i as int)),
        decreases v.len() - i,
    {
        let p = &v[i];
        let ghost prev = r@;
        proof {
            assert(prev.len() == pairs_view(prev).len());
            assert(prev.len() == i);
        }
        r.push((p.0.clone(), p.1.clone()));
        proof {
            assert forall|k: int| 0 <= k < r@.len() implies pairs_view(r@)[k] == pairs_view(
                v@.take(i + 1),
            )[k] by {
                if k < i {
                    assert(r@[k] == prev[k]);
                    assert(pairs_view(prev)[k] == pairs_view(v@.take(i as int))[k]);
                }
            }
            assert(pairs_view(r@) =~= pairs_view(v@.take(i + 1)));
        }
        i += 1;
    }
    proof {
        assert(v@.take(v@.len() as int) =~= v@);
    }
    r
}

impl Clone for Record {
    /// Copies the record; the copy has the same view.
    fn clone(&self) -> (r: Self)
        ensures
            r@ == self@,
    {
        let r = Record {
            tweet_id: self.tweet_id.clone(),
            author_id: self.author_id.clone(),
            created_at: self.created_at.clone(),
            text: self.text.clone(),
            name: self.name.clone(),
            username: self.username.clone(),
            profile_image_url: self.profile_image_url.clone(),
            attachments: clone_pairs(&self.attachments),
        };
        proof {
            assert(r@ =~= self@);
        }
        r
    }
}

/// The views of a sequence of records.
pub open spec fn recs(s: Seq<Record>) -> Seq<RecordV> {
    s.map_values(|r: Record| r@)
}

/// The ids of a sequence of record views.
pub open spec fn rec_ids(s: Seq<RecordV>) -> Seq<Seq<char>> {
    s.map_values(|r: RecordV| r.tweet_id)
}

/// Voice and playback configuration, mutated only by user commands.
/// `speech_rate_milli` holds the speech-rate multiplier in thousandths.
#[derive(Debug, Clone, Copy, PartialEq, Eq, Structural)]
pub struct Settings {
    pub addr: NetAddr,
    pub speaker: u64,
    pub speech_rate_milli: u64,
    pub paused: bool,
}

impl Settings {
    /// The default configuration value: a local voice engine, speaker 0,
    /// rate 1.0, ingestion running.
    pub open spec fn new_spec() -> Settings {
        Settings {
            addr: NetAddr { octet0: 127, octet1: 0, octet2: 0, octet3: 1, port: 50031 },
            speaker: 0u64,
            speech_rate_milli: 1000u64,
            paused: false,
        }
    }

    /// The default configuration.
    pub fn new() -> (r: Self)
        ensures
            r == Self::new_spec(),
    {
        Settings {
            addr: NetAddr::new(127, 0, 0, 1, 50031),
            speaker: 0,
            speech_rate_milli: 1000,
            paused: false,
        }
    }
}

/// Synthesis progress of the scheduling loop.  `Processing` and
/// `Canceling` carry the id of the record whose synthesis is in flight.
#[derive(Debug)]
pub enum TTSState {
    Waiting,
    Processing(String),
    Canceling(String),
}

proof fn lemma_ids_push(s: Seq<RecordV>, r: RecordV)
    ensures
        rec_ids(s.push(r)) == rec_ids(s).push(r.tweet_id),
{
    assert(rec_ids(s.push(r)) =~= rec_ids(s).push(r.tweet_id));
}

proof fn lemma_recs_subrange(s: Seq<Record>, a: int, b: int)
    requires
        0 <= a <= b <= s.len(),
    ensures
        recs(s.subrange(a, b)) == recs(s).subrange(a, b),
{
    assert(recs(s.subrange(a, b)) =~= recs(s).subrange(a, b));
}

proof fn lemma_ids_subrange(s: Seq<RecordV>, a: int, b: int)
    requires
        0 <= a <= b <= s.len(),
    ensures
        rec_ids(s.subrange(a, b)) == rec_ids(s).subrange(a, b),
{
    assert(rec_ids(s.subrange(a, b)) =~= rec_ids(s).subrange(a, b));
}

proof fn lemma_recs_concat(a: Seq<Record>, b: Seq<Record>)
    ensures
        recs(a + b) == recs(a) + recs(b),
{
    assert(recs(a + b) =~= recs(a) + recs(b));
}

proof fn lemma_ids_concat(a: Seq<RecordV>, b: Seq<RecordV>)
    ensures
        rec_ids(a + b) == rec_ids(a) + rec_ids(b),
{
    assert(rec_ids(a + b) =~= rec_ids(a) + rec_ids(b));
}

/// How many history entries a jump evicts: the trim runs while the
/// history holds `limit` or more records, leaving room for one more.
pub open spec fn evict_count(len: int, limit: int) -> int {
    if len >= limit {
        len - (limit - 1)
    } else {
        0
    }
}

/// How a jump to `twid` rewrites the queues of a context: `post` is the
/// context after the jump, `dropped` the ids trimmed from the history,
/// oldest first.  A target in `wait_list` collapses everything queued
/// before it into the history and voids the cache; a target in
/// `ready_list` moves the ready records before it into the history along
/// with their cache entries; an unknown target changes nothing.
pub open spec fn jump_post(pre: Context, post: Context, twid: Seq<char>, dropped: Seq<Seq<char>>) -> bool {
    if pre.wait_ids().contains(twid) {
        let p = pre.wait_ids().index_of(twid);
        let moved = pre.played() + pre.ready() + pre.wait().take(p);
        let k = evict_count(moved.len() as int, pre.history_limit as int);
        &&& post.wait() == pre.wait().skip(p)
        &&& post.ready() == Seq::<RecordV>::empty()
        &&& post.cache() == Seq::<SpeechV>::empty()
        &&& post.played() == moved.skip(k)
        &&& dropped == rec_ids(moved).take(k)
    } else if pre.ready_ids().contains(twid) {
        let p = pre.ready_ids().index_of(twid);
        let moved = pre.played() + pre.ready().take(p);
        let k = evict_count(moved.len() as int, pre.history_limit as int);
        &&& post.wait() == pre.wait()
        &&& post.ready() == pre.ready().skip(p)
        &&& post.cache() == pre.cache().skip(p)
        &&& post.played() == moved.skip(k)
        &&& dropped == rec_ids(moved).take(k)
    } else {
        &&& post.wait() == pre.wait()
        &&& post.ready() == pre.ready()
        &&& post.cache() == pre.cache()
        &&& post.played() == pre.played()
        &&& dropped.len() == 0
    }
}

/// The ids a jump to `twid` trims out of the played history, oldest
/// first.
pub open spec fn jump_dropped(pre: Context, twid: Seq<char>) -> Seq<Seq<char>> {
    if pre.wait_ids().contains(twid) {
        let p = pre.wait_ids().index_of(twid);
        let moved = pre.played() + pre.ready() + pre.wait().take(p);
        let k = evict_count(moved.len() as int, pre.history_limit as int);
        rec_ids(moved).take(k)
    } else if pre.ready_ids().contains(twid) {
        let p = pre.ready_ids().index_of(twid);
        let moved = pre.played() + pre.ready().take(p);
        let k = evict_count(moved.len() as int, pre.history_limit as int);
        rec_ids(moved).take(k)
    } else {
        Seq::<Seq<char>>::empty()
    }
}

/// How a voice change rewrites the queues of a context: pending ready
/// records merge back in front of the waiting ones and the cache empties;
/// with nothing ready the context is untouched.
pub open spec fn invalidate_post(pre: Context, post: Context) -> bool {
    &&& pre.ready().len() > 0 ==> {
        &&& post.wait() == pre.ready() + pre.wait()
        &&& post.ready() == Seq::<RecordV>::empty()
        &&& post.cache() == Seq::<SpeechV>::empty()
        &&& post.played() == pre.played()
    }
    &&& pre.ready().len() == 0 ==> post == pre
    &&& post.forcus_id == pre.forcus_id
    &&& post.name == pre.name
    &&& post.history_limit == pre.history_limit
}

proof fn lemma_nodup_subrange(s: Seq<Seq<char>>, a: int, b: int)
    requires
        s.no_duplicates(),
        0 <= a <= b <= s.len(),
    ensures
        s.subrange(a, b).no_duplicates(),
{
    assert forall|i: int, j: int|
        0 <= i < s.subrange(a, b).len() && 0 <= j < s.subrange(a, b).len() && i != j implies s.subrange(
        a,
        b,
    )[i] != s.subrange(a, b)[j] by {
        assert(s.subrange(a, b)[i] == s[a + i]);
        assert(s.subrange(a, b)[j] == s[a + j]);
    }
}

proof fn lemma_index_of_unique(s: Seq<Seq<char>>, x: Seq<char>, p: int)
    requires
        s.no_duplicates(),
        0 <= p < s.len(),
        s[p] == x,
    ensures
        s.index_of(x) == p,
{
    assert(s.contains(x));
    assert(0 <= s.index_of(x) < s.len() && s[s.index_of(x)] == x);
}

/// The queue/state bundle of one timeline: records awaiting synthesis,
/// records whose speech is ready, the bounded history of played records,
/// and the speech cache backing `ready_list`.
pub struct Context {
    pub name: String,
    pub forcus_id: Option<String>,
    pub wait_list: Vec<Record>,
    pub ready_list: Vec<Record>,
    pub played_list: Vec<Record>,
    pub speech_cache: Vec<Speech>,
    pub history_limit: usize,
}

impl Context {
    /// The views of the records awaiting synthesis, head first.
    pub open spec fn wait(&self) -> Seq<RecordV> {
        recs(self.wait_list@)
    }

    /// The views of the records awaiting playback, head first.
    pub open spec fn ready(&self) -> Seq<RecordV> {
        recs(self.ready_list@)
    }

    /// The views of the played records, oldest first.
    pub open spec fn played(&self) -> Seq<RecordV> {
        recs(self.played_list@)
    }

    /// The views of the cached speeches.
    pub open spec fn cache(&self) -> Seq<SpeechV> {
        speeches(self.speech_cache@)
    }

    pub open spec fn wait_ids(&self) -> Seq<Seq<char>> {
        rec_ids(self.wait())
    }

    pub open spec fn ready_ids(&self) -> Seq<Seq<char>> {
        rec_ids(self.ready())
    }

    pub open spec fn played_ids(&self) -> Seq<Seq<char>> {
        rec_ids(self.played())
    }

    /// The id the display should highlight in this timeline, if any.
    pub open spec fn focus(&self) -> Option<Seq<char>> {
        match self.forcus_id {
            Some(s) => Some(s@),
            None => None,
        }
    }

    /// Whether some queue of this context holds a record with this id.
    pub open spec fn has_id(&self, id: Seq<char>) -> bool {
        self.wait_ids().contains(id) || self.ready_ids().contains(id)
            || self.played_ids().contains(id)
    }

    /// Well-formedness: each queue holds distinct ids, no id is in two
    /// queues, the speech cache lines up with `ready_list` id by id, and
    /// the played history respects its bound.
    pub open spec fn wf(&self) -> bool {
        &&& self.history_limit >= 1
        &&& self.wait_ids().no_duplicates()
        &&& self.ready_ids().no_duplicates()
        &&& self.played_ids().no_duplicates()
        &&& self.wait_ids().disjoint(self.ready_ids())
        &&& self.wait_ids().disjoint(self.played_ids())
        &&& self.ready_ids().disjoint(self.played_ids())
        &&& self.cache().len() == self.ready().len()
        &&& (forall|i: int|
            0 <= i < self.ready().len() ==> #[trigger] self.cache()[i].tweet_id
                == self.ready()[i].tweet_id)
        &&& self.played().len() <= self.history_limit
    }

    /// An empty context for one timeline, with the default history bound.
    pub fn new(name: String) -> (r: Self)
        ensures
            r.wf(),
            r.name == name,
            r.forcus_id is None,
            r.wait().len() == 0,
            r.ready().len() == 0,
            r.played().len() == 0,
            r.cache().len() == 0,
            r.history_limit == crate::HISTORY_LENGTH,
    {
        Self::new_with_limit(name, crate::HISTORY_LENGTH)
    }

    /// An empty context with an explicit history bound.
    pub fn new_with_limit(name: String, history_limit: usize) -> (r: Self)
        requires
            history_limit >= 1,
        ensures
            r.wf(),
            r.name == name,
            r.forcus_id is None,
            r.wait().len() == 0,
            r.ready().len() == 0,
            r.played().len() == 0,
            r.cache().len() == 0,
            r.history_limit == history_limit,
    {
        Self {
            name,
            forcus_id: None,
            wait_list: Vec::<Record>::new(),
            ready_list: Vec::<Record>::new(),
            played_list: Vec::<Record>::new(),
            speech_cache: Vec::<Speech>::new(),
            history_limit,
        }
    }

    /// Appends a record to the synthesis queue.
    pub fn add_new_tweet(&mut self, msg: &Record)
        requires
            old(self).wf(),
            !old(self).has_id(msg@.tweet_id),
        ensures
            final(self).wf(),
            final(self).wait() == old(self).wait().push(msg@),
            final(self).ready() == old(self).ready(),
            final(self).played() == old(self).played(),
            final(self).cache() == old(self).cache(),
            final(self).forcus_id == old(self).forcus_id,
            final(self).name == old(self).name,
            final(self).history_limit == old(self).history_limit,
    {
        let ghost pre = *self;
        self.wait_list.push(msg.clone());
        proof {
            assert(recs(self.wait_list@) =~= pre.wait().push(msg@));
            lemma_ids_push(pre.wait(), msg@);
        }
    }

    /// A copy of the record at the head of the synthesis queue; the queue
    /// itself is not changed.
    pub fn fetch_for_tts(&mut self) -> (r: Record)
        requires
            old(self).wait().len() > 0,
        ensures
            *final(self) == *old(self),
            r@ == old(self).wait()[0],
    {
        self.wait_list[0].clone()
    }

    /// Whether some record is ready for playback.
    pub fn is_speech_ready(&self) -> (r: bool)
        ensures
            r == (self.ready().len() > 0),
    {
        self.ready_list.len() > 0
    }

    /// Books a finished synthesis: on success the head of `wait_list`
    /// moves to the tail of `ready_list` and its speech enters the cache;
    /// on failure nothing changes and the head will be offered again.
    ///
    /// The success case keeps `ready + wait` as it was: records reach
    /// `ready_list` in the order they were enqueued.
    pub fn add_tss_result(&mut self, tts_result: Option<Speech>)
        requires
            old(self).wf(),
            tts_result matches Some(s) ==> old(self).wait().len() > 0 && s@.tweet_id == old(
                self,
            ).wait()[0].tweet_id,
        ensures
            final(self).wf(),
            tts_result matches Some(s) ==> {
                &&& final(self).wait() == old(self).wait().drop_first()
                &&& final(self).ready() == old(self).ready().push(old(self).wait()[0])
                &&& final(self).cache() == old(self).cache().push(s@)
                &&& final(self).played() == old(self).played()
                &&& final(self).ready() + final(self).wait() == old(self).ready() + old(
                    self,
                ).wait()
            },
            tts_result is None ==> *final(self) == *old(self),
            final(self).forcus_id == old(self).forcus_id,
            final(self).name == old(self).name,
            final(self).history_limit == old(self).history_limit,
    {
        match tts_result {
            Some(tts_result) => {
                let ghost pre = *self;
                let rec = self.wait_list.remove(0);
                self.ready_list.push(rec);
                self.speech_cache.push(tts_result);
                proof {
                    assert(self.wait_list@ =~= pre.wait_list@.subrange(
                        1,
                        pre.wait_list@.len() as int,
                    ));
                    lemma_recs_subrange(pre.wait_list@, 1, pre.wait_list@.len() as int);
                    assert(recs(self.ready_list@) =~= pre.ready().push(pre.wait()[0]));
                    assert(speeches(self.speech_cache@) =~= pre.cache().push(
                        tts_result@,
                    ));
                    lemma_ids_subrange(pre.wait(), 1, pre.wait().len() as int);
                    lemma_ids_push(pre.ready(), pre.wait()[0]);
                    assert(self.ready() + self.wait() =~= pre.ready() + pre.wait());
                    assert(pre.wait_ids()[0] == pre.wait()[0].tweet_id);
                    assert forall|i: int, j: int|
                        0 <= i < self.ready_ids().len() && 0 <= j < self.wait_ids().len() implies self.ready_ids()[i]
                        != self.wait_ids()[j] by {
                        assert(self.wait_ids()[j] == pre.wait_ids()[j + 1]);
                        if i < pre.ready_ids().len() {
                            assert(self.ready_ids()[i] == pre.ready_ids()[i]);
                        } else {
                            assert(self.ready_ids()[i] == pre.wait_ids()[0]);
                        }
                    }
                    assert forall|i: int, j: int|
                        0 <= i < self.ready_ids().len() && 0 <= j < self.played_ids().len() implies self.ready_ids()[i]
                        != self.played_ids()[j] by {
                        if i < pre.ready_ids().len() {
                            assert(self.ready_ids()[i] == pre.ready_ids()[i]);
                        } else {
                            assert(self.ready_ids()[i] == pre.wait_ids()[0]);
                        }
                    }
                }
            },
            None => {},
        }
    }

    /// Pops the head of `ready_list` for playback: returns its speech
    /// (looked up in the cache by id), appends the record to the played
    /// history, and returns the id of the record evicted from the history
    /// if the bound overflowed.
    pub fn fetch_for_playback(&mut self) -> (r: (Speech, Option<String>))
        requires
            old(self).wf(),
            old(self).ready().len() > 0,
        ensures
            final(self).wf(),
            r.0@ == old(self).cache()[0],
            r.0@.tweet_id == old(self).ready()[0].tweet_id,
            final(self).ready() == old(self).ready().drop_first(),
            final(self).cache() == old(self).cache().drop_first(),
            final(self).wait() == old(self).wait(),
            ({
                let pushed = old(self).played().push(old(self).ready()[0]);
                if pushed.len() > old(self).history_limit {
                    &&& final(self).played() == pushed.drop_first()
                    &&& r.1 matches Some(id) && id@ == old(self).played()[0].tweet_id
                } else {
                    &&& final(self).played() == pushed
                    &&& r.1 is None
                }
            }),
            final(self).forcus_id == old(self).forcus_id,
            final(self).name == old(self).name,
            final(self).history_limit == old(self).history_limit,
    {
        let ghost pre = *self;
        let mut overflow_id: Option<String> = None;
        let target_tw = self.ready_list.remove(0);

        // The cache is looked up by id, not by position.
        let index = match vec_find_speech(&self.speech_cache, &target_tw.tweet_id) {
            Some(i) => i,
            None => {
                proof {
                    assert(target_tw@ == pre.ready()[0]);
                    assert(pre.cache()[0].tweet_id == pre.ready()[0].tweet_id);
                    assert(speech_ids(pre.cache())[0] == target_tw.tweet_id@);
                    assert(speech_ids(pre.cache()).contains(target_tw.tweet_id@));
                }
                unreached()
            },
        };
        proof {
            assert(speech_ids(pre.cache())[0] == pre.ready()[0].tweet_id);
            assert(index == 0);
        }
        let speech = remove(&mut self.speech_cache, index);

        self.played_list.push(target_tw);
        if self.played_list.len() > self.history_limit {
            let ve = self.played_list.remove(0);
            overflow_id = Some(ve.tweet_id);
        }
        proof {
            assert(self.ready_list@ =~= pre.ready_list@.subrange(1, pre.ready_list@.len() as int));
            lemma_recs_subrange(pre.ready_list@, 1, pre.ready_list@.len() as int);
            lemma_ids_subrange(pre.ready(), 1, pre.ready().len() as int);
            assert(self.cache() =~= pre.cache().drop_first());
            let pushed = pre.played().push(pre.ready()[0]);
            if pushed.len() > pre.history_limit {
                assert(self.played() =~= pushed.drop_first());
            } else {
                assert(self.played() =~= pushed);
            }
            lemma_ids_push(pre.played(), pre.ready()[0]);
            assert(pre.ready_ids()[0] == pre.ready()[0].tweet_id);
            assert forall|i: int, j: int|
                0 <= i < self.wait_ids().len() && 0 <= j < self.played_ids().len() implies self.wait_ids()[i]
                != self.played_ids()[j] by {
                let pids = pre.played_ids().push(pre.ready()[0].tweet_id);
                assert(rec_ids(pushed) == pids);
                if pushed.len() > pre.history_limit {
                    assert(self.played_ids()[j] == pids[j + 1]);
                } else {
                    assert(self.played_ids()[j] == pids[j]);
                }
            }
            assert forall|i: int, j: int|
                0 <= i < self.ready_ids().len() && 0 <= j < self.played_ids().len() implies self.ready_ids()[i]
                != self.played_ids()[j] by {
                let pids = pre.played_ids().push(pre.ready()[0].tweet_id);
                assert(rec_ids(pushed) == pids);
                assert(self.ready_ids()[i] == pre.ready_ids()[i + 1]);
                if pushed.len() > pre.history_limit {
                    assert(self.played_ids()[j] == pids[j + 1]);
                } else {
                    assert(self.played_ids()[j] == pids[j]);
                }
            }
            assert(self.played_ids().no_duplicates()) by {
                let pids = pre.played_ids().push(pre.ready()[0].tweet_id);
                assert(rec_ids(pushed) == pids);
                assert(pids.no_duplicates());
                if pushed.len() > pre.history_limit {
                    assert(self.played_ids() =~= pids.drop_first());
                }
            }
        }
        (speech, overflow_id)
    }

    /// Jumps to the record with the given id.  If the target waits for
    /// synthesis, everything queued before it (ready first, then the
    /// earlier waiting records) moves into the played history and the
    /// speech cache is cleared; if the target is ready for playback, the
    /// ready records before it move into the history and their cached
    /// speeches are discarded.  Either way the history is then trimmed
    /// below its bound, and the trimmed ids are returned oldest first.
    /// An unknown id changes nothing.
    pub fn jump_to_twid(&mut self, twid: &String) -> (r: Vec<String>)
        requires
            old(self).wf(),
        ensures
            final(self).wf(),
            final(self).forcus_id == old(self).forcus_id,
            final(self).name == old(self).name,
            final(self).history_limit == old(self).history_limit,
            jump_post(*old(self), *final(self), twid@, strs(r@)),
    {
        let ghost pre = *self;
        let mut hit = false;

        let p_opt = vec_find_id(&self.wait_list, twid);
        if let Some(p) = p_opt {
            hit = true;
            self.played_list.append(&mut self.ready_list);
            let tail = self.wait_list.split_off(p);
            self.played_list.append(&mut self.wait_list);
            self.wait_list = tail;
            self.speech_cache.clear();
            proof {
                assert(pre.wait_ids()[p as int] == twid@);
                assert(pre.wait_ids().contains(twid@));
                lemma_index_of_unique(pre.wait_ids(), twid@, p as int);
                assert(self.played_list@ =~= pre.played_list@ + pre.ready_list@
                    + pre.wait_list@.subrange(0, p as int));
                lemma_recs_concat(pre.played_list@ + pre.ready_list@, pre.wait_list@.subrange(0, p as int));
                lemma_recs_concat(pre.played_list@, pre.ready_list@);
                lemma_recs_subrange(pre.wait_list@, 0, p as int);
                assert(self.played() == (pre.played() + pre.ready()) + pre.wait().take(p as int));
                assert(self.played() =~= pre.played() + pre.ready() + pre.wait().take(p as int));
                lemma_recs_subrange(pre.wait_list@, p as int, pre.wait_list@.len() as int);
                assert(self.wait() == pre.wait().skip(p as int));
                assert(self.ready() =~= Seq::<RecordV>::empty());
                assert(self.cache() =~= Seq::<SpeechV>::empty());
            }
        }

        let p2_opt = vec_find_id(&self.ready_list, twid);
        if let Some(p) = p2_opt {
            hit = true;
            let tail = self.ready_list.split_off(p);
            self.played_list.append(&mut self.ready_list);
            self.ready_list = tail;
            let ghost mid_cache = self.speech_cache@;
            let tail2 = self.speech_cache.split_off(p);
            self.speech_cache = tail2;
            proof {
                assert(pre.ready_ids()[p as int] == twid@);
                assert(pre.ready_ids().contains(twid@));
                lemma_index_of_unique(pre.ready_ids(), twid@, p as int);
                assert(self.played_list@ =~= pre.played_list@ + pre.ready_list@.subrange(
                    0,
                    p as int,
                ));
                lemma_recs_concat(pre.played_list@, pre.ready_list@.subrange(0, p as int));
                lemma_recs_subrange(pre.ready_list@, 0, p as int);
                assert(self.played() == pre.played() + pre.ready().take(p as int));
                lemma_recs_subrange(pre.ready_list@, p as int, pre.ready_list@.len() as int);
                assert(self.ready() == pre.ready().skip(p as int));
                assert(self.cache() =~= pre.cache().skip(p as int));
            }
        }

        let ghost mid = *self;
        let ghost moved = recs(self.played_list@);
        let mut drop_list: Vec<String> = Vec::new();
        proof {
            assert(strs(drop_list@) =~= rec_ids(moved).take(0));
        }
        if hit {
            while self.played_list.len() >= self.history_limit
                invariant
                    self.history_limit == mid.history_limit,
                    self.history_limit >= 1,
                    self.wait_list == mid.wait_list,
                    self.ready_list == mid.ready_list,
                    self.speech_cache == mid.speech_cache,
                    self.name == mid.name,
                    self.forcus_id == mid.forcus_id,
                    drop_list@.len() <= moved.len(),
                    0 <= drop_list@.len() as int <= evict_count(
                        moved.len() as int,
                        self.history_limit as int,
                    ),
                    self.played() == moved.skip(drop_list@.len() as int),
                    strs(drop_list@) == rec_ids(moved).take(drop_list@.len() as int),
                decreases self.played_list.len(),
            {
                let ghost j = drop_list@.len() as int;
                let ghost prev = drop_list@;
                let ghost before = self.played_list@;
                let ve = self.played_list.remove(0);
                proof {
                    assert(self.played_list@ =~= before.subrange(1, before.len() as int));
                    lemma_recs_subrange(before, 1, before.len() as int);
                    assert(recs(before) == moved.skip(j));
                    assert(recs(before).len() == before.len());
                    assert(before.len() as int == moved.len() - j);
                    assert(self.played() == recs(before).subrange(1, before.len() as int));
                    assert forall|m: int| 0 <= m < self.played().len() implies self.played()[m]
                        == moved.skip(j + 1)[m] by {
                        assert(self.played()[m] == recs(before)[1 + m]);
                        assert(moved.skip(j)[1 + m] == moved[j + 1 + m]);
                        assert(moved.skip(j + 1)[m] == moved[j + 1 + m]);
                    }
                    assert(self.played() =~= moved.skip(j + 1));
                    assert(ve@ == recs(before)[0]);
                    assert(moved.skip(j)[0] == moved[j]);
                    assert(ve@ == moved[j]);
                    assert(ve.tweet_id@ == rec_ids(moved)[j]);
                }
                drop_list.push(ve.tweet_id);
                proof {
                    lemma_strs_snoc(prev, rec_ids(moved), j, ve.tweet_id);
                }
            }
        }
        proof {
            let lim = pre.history_limit as int;
            let j = drop_list@.len() as int;
            if hit {
                assert(moved.len() - j < lim);
                assert(j == evict_count(moved.len() as int, lim));
            }
            if pre.wait_ids().contains(twid@) {
                let p = pre.wait_ids().index_of(twid@);
                lemma_ids_concat(pre.played() + pre.ready(), pre.wait().take(p));
                lemma_ids_concat(pre.played(), pre.ready());
                lemma_ids_subrange(pre.wait(), 0, p);
                lemma_ids_subrange(pre.wait(), p, pre.wait().len() as int);
                assert(rec_ids(moved) =~= pre.played_ids() + pre.ready_ids() + pre.wait_ids().take(
                    p,
                ));
                lemma_ids_subrange(moved, j, moved.len() as int);
                self.lemma_wf_after_wait_jump(pre, p, j);
            } else if pre.ready_ids().contains(twid@) {
                let p = pre.ready_ids().index_of(twid@);
                lemma_ids_concat(pre.played(), pre.ready().take(p));
                lemma_ids_subrange(pre.ready(), 0, p);
                lemma_ids_subrange(pre.ready(), p, pre.ready().len() as int);
                assert(rec_ids(moved) =~= pre.played_ids() + pre.ready_ids().take(p));
                lemma_ids_subrange(moved, j, moved.len() as int);
                self.lemma_wf_after_ready_jump(pre, p, j);
            } else {
                assert(*self == pre);
            }
        }
        drop_list
    }

    proof fn lemma_wf_after_wait_jump(&self, pre: Context, p: int, j: int)
        requires
            pre.wf(),
            0 <= p <= pre.wait().len(),
            0 <= j <= (pre.played() + pre.ready() + pre.wait().take(p)).len(),
            self.wait() == pre.wait().skip(p),
            self.ready() == Seq::<RecordV>::empty(),
            self.cache() == Seq::<SpeechV>::empty(),
            self.played() == (pre.played() + pre.ready() + pre.wait().take(p)).skip(j),
            self.played().len() <= self.history_limit,
            self.history_limit == pre.history_limit,
        ensures
            self.wf(),
    {
        let moved = pre.played() + pre.ready() + pre.wait().take(p);
        let wids = pre.wait_ids();
        let rids = pre.ready_ids();
        let pids = pre.played_ids();
        lemma_ids_concat(pre.played() + pre.ready(), pre.wait().take(p));
        lemma_ids_concat(pre.played(), pre.ready());
        lemma_ids_subrange(pre.wait(), 0, p);
        lemma_ids_subrange(pre.wait(), p, pre.wait().len() as int);
        lemma_ids_subrange(moved, j, moved.len() as int);
        let mids = (pids + rids) + wids.take(p);
        assert(rec_ids(moved) == mids);
        lemma_nodup_subrange(wids, 0, p);
        lemma_nodup_subrange(wids, p, wids.len() as int);
        vstd::seq_lib::lemma_no_dup_in_concat(pids, rids);
        assert forall|i: int, k: int|
            0 <= i < (pids + rids).len() && 0 <= k < wids.take(p).len() implies (pids + rids)[i]
            != wids.take(p)[k] by {
            assert(wids.take(p)[k] == wids[k]);
            if i < pids.len() {
                assert((pids + rids)[i] == pids[i]);
            } else {
                assert((pids + rids)[i] == rids[i - pids.len()]);
            }
        }
        vstd::seq_lib::lemma_no_dup_in_concat(pids + rids, wids.take(p));
        lemma_nodup_subrange(mids, j, mids.len() as int);
        assert(self.played_ids() == mids.skip(j));
        assert(self.wait_ids() == wids.skip(p));
        assert forall|i: int, k: int|
            0 <= i < self.wait_ids().len() && 0 <= k < self.played_ids().len() implies self.wait_ids()[i]
            != self.played_ids()[k] by {
            assert(self.wait_ids()[i] == wids[p + i]);
            assert(self.played_ids()[k] == mids[j + k]);
            let m = j + k;
            if m < pids.len() {
                assert(mids[m] == pids[m]);
            } else if m < pids.len() + rids.len() {
                assert(mids[m] == rids[m - pids.len()]);
            } else {
                assert(mids[m] == wids[m - pids.len() - rids.len()]);
                assert(m - pids.len() - rids.len() < p);
            }
        }
    }

    proof fn lemma_wf_after_ready_jump(&self, pre: Context, p: int, j: int)
        requires
            pre.wf(),
            0 <= p <= pre.ready().len(),
            0 <= j <= (pre.played() + pre.ready().take(p)).len(),
            self.wait() == pre.wait(),
            self.ready() == pre.ready().skip(p),
            self.cache() == pre.cache().skip(p),
            self.played() == (pre.played() + pre.ready().take(p)).skip(j),
            self.played().len() <= self.history_limit,
            self.history_limit == pre.history_limit,
        ensures
            self.wf(),
    {
        let moved = pre.played() + pre.ready().take(p);
        let wids = pre.wait_ids();
        let rids = pre.ready_ids();
        let pids = pre.played_ids();
        lemma_ids_concat(pre.played(), pre.ready().take(p));
        lemma_ids_subrange(pre.ready(), 0, p);
        lemma_ids_subrange(pre.ready(), p, pre.ready().len() as int);
        lemma_ids_subrange(moved, j, moved.len() as int);
        let mids = pids + rids.take(p);
        assert(rec_ids(moved) == mids);
        lemma_nodup_subrange(rids, 0, p);
        lemma_nodup_subrange(rids, p, rids.len() as int);
        assert forall|i: int, k: int|
            0 <= i < pids.len() && 0 <= k < rids.take(p).len() implies pids[i] != rids.take(p)[k] by {
            assert(rids.take(p)[k] == rids[k]);
        }
        vstd::seq_lib::lemma_no_dup_in_concat(pids, rids.take(p));
        lemma_nodup_subrange(mids, j, mids.len() as int);
        assert(self.played_ids() == mids.skip(j));
        assert(self.ready_ids() == rids.skip(p));
        assert forall|i: int, k: int|
            0 <= i < self.wait_ids().len() && 0 <= k < self.played_ids().len() implies self.wait_ids()[i]
            != self.played_ids()[k] by {
            assert(self.played_ids()[k] == mids[j + k]);
            let m = j + k;
            if m < pids.len() {
                assert(mids[m] == pids[m]);
            } else {
                assert(mids[m] == rids[m - pids.len()]);
            }
        }
        assert forall|i: int, k: int|
            0 <= i < self.ready_ids().len() && 0 <= k < self.played_ids().len() implies self.ready_ids()[i]
            != self.played_ids()[k] by {
            assert(self.ready_ids()[i] == rids[p + i]);
            assert(self.played_ids()[k] == mids[j + k]);
            let m = j + k;
            if m < pids.len() {
                assert(mids[m] == pids[m]);
            } else {
                assert(mids[m] == rids[m - pids.len()]);
                assert(m - pids.len() < p);
            }
        }
        assert forall|i: int, k: int|
            0 <= i < self.wait_ids().len() && 0 <= k < self.ready_ids().len() implies self.wait_ids()[i]
            != self.ready_ids()[k] by {
            assert(self.ready_ids()[k] == rids[p + k]);
        }
        assert forall|i: int|
            0 <= i < self.ready().len() implies #[trigger] self.cache()[i].tweet_id
            == self.ready()[i].tweet_id by {
            assert(self.cache()[i] == pre.cache()[p + i]);
            assert(self.ready()[i] == pre.ready()[p + i]);
        }
    }

    /// Invalidates pending speech on a voice change: merges `ready_list`
    /// back in front of `wait_list` (keeping the ready-then-wait order)
    /// and clears the speech cache.  With nothing ready this is a no-op.
    pub fn remove_cache(&mut self)
        requires
            old(self).wf(),
        ensures
            final(self).wf(),
            invalidate_post(*old(self), *final(self)),
    {
        if self.ready_list.len() > 0 {
            let ghost pre = *self;
            self.ready_list.append(&mut self.wait_list);
            self.wait_list = self.ready_list.split_off(0);
            self.speech_cache.clear();
            proof {
                assert(self.wait_list@ =~= pre.ready_list@ + pre.wait_list@);
                assert(self.ready_list@ =~= Seq::<Record>::empty());
                lemma_recs_concat(pre.ready_list@, pre.wait_list@);
                lemma_ids_concat(pre.ready(), pre.wait());
                assert(self.wait() =~= pre.ready() + pre.wait());
                assert(self.cache() =~= Seq::<SpeechV>::empty());
                assert(self.ready() =~= Seq::<RecordV>::empty());
                vstd::seq_lib::lemma_no_dup_in_concat(pre.ready_ids(), pre.wait_ids());
                assert forall|i: int, j: int|
                    0 <= i < self.wait_ids().len() && 0 <= j < self.played_ids().len() implies self.wait_ids()[i]
                    != self.played_ids()[j] by {
                    if i < pre.ready_ids().len() {
                        assert(self.wait_ids()[i] == pre.ready_ids()[i]);
                    } else {
                        assert(self.wait_ids()[i] == pre.wait_ids()[i - pre.ready_ids().len()]);
                    }
                }
            }
        }
    }

    /// Empties every queue and the cache, returning the dropped ids in
    /// wait, ready, played order.
    pub fn drop_all(&mut self) -> (r: Vec<String>)
        requires
            old(self).wf(),
        ensures
            final(self).wf(),
            final(self).wait().len() == 0,
            final(self).ready().len() == 0,
            final(self).played().len() == 0,
            final(self).cache().len() == 0,
            final(self).forcus_id == old(self).forcus_id,
            final(self).name == old(self).name,
            final(self).history_limit == old(self).history_limit,
            strs(r@) == old(self).wait_ids() + old(self).ready_ids() + old(self).played_ids(),
    {
        let mut drop_list: Vec<String> = Vec::new();
        let ghost all = self.wait_ids() + self.ready_ids() + self.played_ids();
        proof {
            assert(strs(drop_list@) =~= all.take(0));
        }

        let mut i: usize = 0;
        while i < self.wait_list.len()
            invariant
                i <= self.wait_list.len(),
                all == self.wait_ids() + self.ready_ids() + self.played_ids(),
                strs(drop_list@) == all.take(i as int),
                *self == *old(self),
            decreases self.wait_list.len() - i,
        {
            let ghost prev = drop_list@;
            let ve = self.wait_list[i].tweet_id.clone();
            proof {
                assert(ve@ == self.wait_ids()[i as int]);
                assert(all[i as int] == self.wait_ids()[i as int]);
                lemma_strs_snoc(prev, all, i as int, ve);
            }
            drop_list.push(ve);
            i += 1;
        }

        let w_len = self.wait_list.len();
        let mut i: usize = 0;
        while i < self.ready_list.len()
            invariant
                i <= self.ready_list.len(),
                w_len == self.wait_list.len(),
                all == self.wait_ids() + self.ready_ids() + self.played_ids(),
                strs(drop_list@) == all.take(w_len + i as int),
                *self == *old(self),
            decreases self.ready_list.len() - i,
        {
            let ghost prev = drop_list@;
            let ve = self.ready_list[i].tweet_id.clone();
            proof {
                assert(ve@ == self.ready_ids()[i as int]);
                assert(all[w_len + i as int] == self.ready_ids()[i as int]);
                lemma_strs_snoc(prev, all, w_len + i as int, ve);
            }
            drop_list.push(ve);
            i += 1;
        }

        let r_len = self.ready_list.len();
        let mut i: usize = 0;
        while i < self.played_list.len()
            invariant
                i <= self.played_list.len(),
                w_len == self.wait_list.len(),
                r_len == self.ready_list.len(),
                all == self.wait_ids() + self.ready_ids() + self.played_ids(),
                strs(drop_list@) == all.take(w_len + r_len + i as int),
                *self == *old(self),
            decreases self.played_list.len() - i,
        {
            let ghost prev = drop_list@;
            let ve = self.played_list[i].tweet_id.clone();
            proof {
                assert(ve@ == self.played_ids()[i as int]);
                assert(all[w_len + r_len + i as int] == self.played_ids()[i as int]);
                lemma_strs_snoc(prev, all, w_len + r_len + i as int, ve);
            }
            drop_list.push(ve);
            i += 1;
        }
        proof {
            assert(all.take(all.len() as int) =~= all);
        }

        self.speech_cache.clear();
        self.wait_list.clear();
        self.ready_list.clear();
        self.played_list.clear();
        proof {
            assert(self.wait() =~= Seq::<RecordV>::empty());
            assert(self.ready() =~= Seq::<RecordV>::empty());
            assert(self.played() =~= Seq::<RecordV>::empty());
            assert(self.cache() =~= Seq::<SpeechV>::empty());
        }
        drop_list
    }

    /// Whether some queue of this context holds a record with this id.
    pub fn contains_id(&self, id: &String) -> (r: bool)
        ensures
            r == self.has_id(id@),
    {
        vec_has_id(&self.wait_list, id) || vec_has_id(&self.ready_list, id) || vec_has_id(
            &self.played_list,
            id,
        )
    }
}

/// The views of a sequence of strings.
pub open spec fn strs(s: Seq<String>) -> Seq<Seq<char>> {
    s.map_values(|x: String| x@)
}

proof fn lemma_strs_snoc(prev: Seq<String>, all: Seq<Seq<char>>, n: int, x: String)
    requires
        0 <= n < all.len(),
        strs(prev) == all.take(n),
        x@ == all[n],
    ensures
        strs(prev.push(x)) == all.take(n + 1),
{
    assert(prev.len() == strs(prev).len());
    assert forall|k: int| 0 <= k < strs(prev.push(x)).len() implies strs(prev.push(x))[k]
        == all.take(n + 1)[k] by {
        if k < n {
            assert(prev.push(x)[k] == prev[k]);
            assert(strs(prev)[k] == all.take(n)[k]);
        } else {
            assert(prev.push(x)[k] == x);
        }
    }
    assert(strs(prev.push(x)) =~= all.take(n + 1));
}

/// Takes the element at `index` out of the vector, closing the gap.
pub fn remove<T>(list: &mut Vec<T>, index: usize) -> (r: T)
    requires
        index < old(list).len(),
    ensures
        r == old(list)@[index as int],
        final(list)@ == old(list)@.remove(index as int),
{
    list.remove(index)
}

/// Whether a record vector holds a record with this id.
fn vec_has_id(v: &Vec<Record>, id: &String) -> (r: bool)
    ensures
        r == rec_ids(recs(v@)).contains(id@),
{
    let mut i: usize = 0;
    while i < v.len()
        invariant
            i <= v.len(),
            forall|k: int| 0 <= k < i ==> rec_ids(recs(v@))[k] != id@,
        decreases v.len() - i,
    {
        if v[i].tweet_id == *id {
            proof {
                assert(rec_ids(recs(v@))[i as int] == id@);
            }
            return true;
        }
        i += 1;
    }
    false
}

/// The first listed user with this id, if any.
pub open spec fn find_user(users: Seq<UserV>, author_id: Seq<char>) -> Option<UserV>
    decreases users.len(),
{
    if users.len() == 0 {
        None
    } else if users[0].id == author_id {
        Some(users[0])
    } else {
        find_user(users.drop_first(), author_id)
    }
}

/// The first listed media item with this key, if any.
pub open spec fn find_media(medias: Seq<MediaV>, key: Seq<char>) -> Option<MediaV>
    decreases medias.len(),
{
    if medias.len() == 0 {
        None
    } else if medias[0].media_key == key {
        Some(medias[0])
    } else {
        find_media(medias.drop_first(), key)
    }
}

/// What one media item adds to the attachments: a photo contributes its
/// url, animated media contribute their preview still, anything else is
/// skipped; a missing address fails the build.
pub open spec fn attachment_add(atts: Seq<(Seq<char>, Seq<char>)>, m: MediaV) -> Option<
    Seq<(Seq<char>, Seq<char>)>,
> {
    if m.kind == "photo"@ {
        match m.url {
            Some(u) => Some(atts.push((m.kind, u))),
            None => None,
        }
    } else if m.kind == "gif"@ || m.kind == "video"@ {
        match m.preview_image_url {
            Some(u) => Some(atts.push((m.kind, u))),
            None => None,
        }
    } else {
        Some(atts)
    }
}

/// The attachment list a tweet's media keys resolve to, or nothing if a
/// key is unknown or its media item lacks the needed address.
pub open spec fn attachments_built(keys: Seq<Seq<char>>, medias: Seq<MediaV>) -> Option<
    Seq<(Seq<char>, Seq<char>)>,
>
    decreases keys.len(),
{
    if keys.len() == 0 {
        Some(Seq::<(Seq<char>, Seq<char>)>::empty())
    } else {
        match attachments_built(keys.drop_last(), medias) {
            None => None,
            Some(pre) => match find_media(medias, keys.last()) {
                None => None,
                Some(m) => attachment_add(pre, m),
            },
        }
    }
}

/// The record a tweet resolves to: its own fields, the fields of its
/// author, and the resolved attachments — or nothing if the author is
/// unknown or an attachment cannot be resolved.
pub open spec fn record_built(
    tweet: TweetV,
    media_keys: Seq<Seq<char>>,
    users: Seq<UserV>,
    medias: Seq<MediaV>,
) -> Option<RecordV> {
    match find_user(users, tweet.author_id) {
        None => None,
        Some(u) => match attachments_built(media_keys, medias) {
            None => None,
            Some(atts) => Some(
                RecordV {
                    tweet_id: tweet.id,
                    author_id: tweet.author_id,
                    created_at: tweet.created_at,
                    text: tweet.text,
                    name: u.name,
                    username: u.username,
                    profile_image_url: u.profile_image_url,
                    attachments: atts,
                },
            ),
        },
    }
}

/// Law: in a well-formed context the speech cache holds exactly the ids
/// of the records awaiting playback — position by position, and so also
/// as a set.
pub proof fn lemma_cache_matches_ready(c: Context)
    requires
        c.wf(),
    ensures
        speech_ids(c.cache()) == rec_ids(c.ready()),
        speech_ids(c.cache()).to_set() == rec_ids(c.ready()).to_set(),
{
    assert(speech_ids(c.cache()) =~= rec_ids(c.ready()));
}

/// Law: in a well-formed context no record id sits in more than one of
/// the wait, ready and played queues.
pub proof fn lemma_queues_exclusive(c: Context, id: Seq<char>)
    requires
        c.wf(),
    ensures
        !(c.wait_ids().contains(id) && c.ready_ids().contains(id)),
        !(c.wait_ids().contains(id) && c.played_ids().contains(id)),
        !(c.ready_ids().contains(id) && c.played_ids().contains(id)),
{
    if c.wait_ids().contains(id) && c.ready_ids().contains(id) {
        let i = choose|i: int| 0 <= i < c.wait_ids().len() && c.wait_ids()[i] == id;
        let j = choose|j: int| 0 <= j < c.ready_ids().len() && c.ready_ids()[j] == id;
        assert(c.wait_ids()[i] != c.ready_ids()[j]);
    }
    if c.wait_ids().contains(id) && c.played_ids().contains(id) {
        let i = choose|i: int| 0 <= i < c.wait_ids().len() && c.wait_ids()[i] == id;
        let j = choose|j: int| 0 <= j < c.played_ids().len() && c.played_ids()[j] == id;
        assert(c.wait_ids()[i] != c.played_ids()[j]);
    }
    if c.ready_ids().contains(id) && c.played_ids().contains(id) {
        let i = choose|i: int| 0 <= i < c.ready_ids().len() && c.ready_ids()[i] == id;
        let j = choose|j: int| 0 <= j < c.played_ids().len() && c.played_ids()[j] == id;
        assert(c.ready_ids()[i] != c.played_ids()[j]);
    }
}

/// Law: a well-formed context holds at most `history_limit` played
/// records; since every operation returns a well-formed context, the
/// bound holds after every operation.
pub proof fn lemma_history_bounded(c: Context)
    requires
        c.wf(),
    ensures
        c.played().len() <= c.history_limit,
{
}

/// The first position of a record with this id, if any.
fn vec_find_id(v: &Vec<Record>, id: &String) -> (r: Option<usize>)
    ensures
        match r {
            Some(p) => {
                &&& p < v@.len()
                &&& rec_ids(recs(v@))[p as int] == id@
                &&& forall|k: int| 0 <= k < p ==> rec_ids(recs(v@))[k] != id@
            },
            None => !rec_ids(recs(v@)).contains(id@),
        },
{
    let mut i: usize = 0;
    while i < v.len()
        invariant
            i <= v.len(),
            forall|k: int| 0 <= k < i ==> rec_ids(recs(v@))[k] != id@,
        decreases v.len() - i,
    {
        if v[i].tweet_id == *id {
            proof {
                assert(rec_ids(recs(v@))[i as int] == id@);
            }
            return Some(i);
        }
        i += 1;
    }
    None
}

/// Whether the string equals the literal, character for character.
fn string_is(s: &String, lit: &str) -> (r: bool)
    ensures
        r == (s@ == lit@),
{
    *s == lit.to_owned()
}

proof fn lemma_pairs_push(prev: Seq<(String, String)>, x: (String, String))
    ensures
        pairs_view(prev.push(x)) == pairs_view(prev).push((x.0@, x.1@)),
{
    assert(prev.len() == pairs_view(prev).len());
    assert forall|k: int| 0 <= k < pairs_view(prev.push(x)).len() implies pairs_view(prev.push(x))[k]
        == pairs_view(prev).push((x.0@, x.1@))[k] by {
        if k < prev.len() {
            assert(prev.push(x)[k] == prev[k]);
            assert(pairs_view(prev)[k] == (prev[k].0@, prev[k].1@));
        } else {
            assert(prev.push(x)[k] == x);
        }
    }
    assert(pairs_view(prev.push(x)) =~= pairs_view(prev).push((x.0@, x.1@)));
}

proof fn lemma_attachments_prefix_none(keys: Seq<Seq<char>>, medias: Seq<MediaV>, n: int)
    requires
        0 <= n <= keys.len(),
        attachments_built(keys.take(n), medias) is None,
    ensures
        attachments_built(keys, medias) is None,
    decreases keys.len(),
{
    if n == keys.len() {
        assert(keys.take(n) =~= keys);
    } else {
        assert(keys.drop_last().take(n) =~= keys.take(n));
        lemma_attachments_prefix_none(keys.drop_last(), medias, n);
    }
}

/// The first listed user with this id, if any.
fn find_user_exec<'a>(users: &'a Vec<User>, author_id: &String) -> (r: Option<&'a User>)
    ensures
        match r {
            Some(u) => find_user(user_views(users@), author_id@) == Some(u@),
            None => find_user(user_views(users@), author_id@) is None,
        },
{
    let ghost uv = user_views(users@);
    let mut i: usize = 0;
    proof {
        assert(uv.skip(0) =~= uv);
    }
    while i < users.len()
        invariant
            i <= users@.len(),
            uv == user_views(users@),
            uv.len() == users@.len(),
            find_user(uv, author_id@) == find_user(uv.skip(i as int), author_id@),
        decreases users@.len() - i,
    {
        if users[i].id == *author_id {
            proof {
                assert(uv.skip(i as int)[0] == uv[i as int]);
                assert(uv[i as int] == users@[i as int]@);
            }
            return Some(&users[i]);
        }
        proof {
            assert(uv.skip(i as int)[0] == uv[i as int]);
            assert(uv[i as int] == users@[i as int]@);
            assert(uv.skip(i as int).drop_first() =~= uv.skip(i + 1));
        }
        i += 1;
    }
    proof {
        assert(uv.skip(users@.len() as int).len() == 0);
    }
    None
}

/// The first listed media item with this key, if any.
fn find_media_exec<'a>(medias: &'a Vec<Media>, key: &String) -> (r: Option<&'a Media>)
    ensures
        match r {
            Some(m) => find_media(media_views(medias@), key@) == Some(m@),
            None => find_media(media_views(medias@), key@) is None,
        },
{
    let ghost mv = media_views(medias@);
    let mut i: usize = 0;
    proof {
        assert(mv.skip(0) =~= mv);
    }
    while i < medias.len()
        invariant
            i <= medias@.len(),
            mv == media_views(medias@),
            mv.len() == medias@.len(),
            find_media(mv, key@) == find_media(mv.skip(i as int), key@),
        decreases medias@.len() - i,
    {
        if medias[i].media_key == *key {
            proof {
                assert(mv.skip(i as int)[0] == mv[i as int]);
                assert(mv[i as int] == medias@[i as int]@);
            }
            return Some(&medias[i]);
        }
        proof {
            assert(mv.skip(i as int)[0] == mv[i as int]);
            assert(mv[i as int] == medias@[i as int]@);
            assert(mv.skip(i as int).drop_first() =~= mv.skip(i + 1));
        }
        i += 1;
    }
    proof {
        assert(mv.skip(medias@.len() as int).len() == 0);
    }
    None
}

/// Resolves one tweet into a record: looks up its author, resolves its
/// media keys into (kind, address) attachments, and copies the fields.
/// Returns nothing if the author is missing, a media key is unknown, or
/// a media item lacks the needed address.
pub fn into(tweet: &Tweet, media_keys: &Vec<String>, users: &Vec<User>, medias: &Vec<Media>) -> (r:
    Option<Record>)
    ensures
        match r {
            Some(rec) => record_built(
                tweet@,
                strs(media_keys@),
                user_views(users@),
                media_views(medias@),
            ) == Some(rec@),
            None => record_built(
                tweet@,
                strs(media_keys@),
                user_views(users@),
                media_views(medias@),
            ) is None,
        },
{
    let ghost keys = strs(media_keys@);
    let ghost mv = media_views(medias@);
    let user = match find_user_exec(users, &tweet.author_id) {
        Some(u) => u,
        None => {
            return None;
        },
    };

    let mut attachments: Vec<(String, String)> = Vec::new();
    proof {
        assert(keys.take(0) =~= Seq::<Seq<char>>::empty());
        assert(pairs_view(attachments@) =~= Seq::<(Seq<char>, Seq<char>)>::empty());
    }
    let mut i: usize = 0;
    while i < media_keys.len()
        invariant
            i <= media_keys@.len(),
            keys == strs(media_keys@),
            mv == media_views(medias@),
            keys.len() == media_keys@.len(),
            attachments_built(keys.take(i as int), mv) == Some(pairs_view(attachments@)),
            find_user(user_views(users@), tweet.author_id@) is Some,
        decreases media_keys@.len() - i,
    {
        proof {
            assert(keys.take(i + 1).drop_last() =~= keys.take(i as int));
            assert(keys.take(i + 1).last() == keys[i as int]);
            assert(keys[i as int] == media_keys@[i as int]@);
        }
        let media = match find_media_exec(medias, &media_keys[i]) {
            Some(m) => m,
            None => {
                proof {
                    assert(attachments_built(keys.take(i + 1), mv) is None);
                    lemma_attachments_prefix_none(keys, mv, i + 1);
                }
                return None;
            },
        };
        let ghost pre_atts = pairs_view(attachments@);
        if string_is(&media.kind, "photo") {
            match &media.url {
                Some(u) => {
                    let ghost prev = attachments@;
                    attachments.push((media.kind.clone(), u.clone()));
                    proof {
                        lemma_pairs_push(prev, attachments@.last());
                    }
                },
                None => {
                    proof {
                        assert(attachments_built(keys.take(i + 1), mv) is None);
                        lemma_attachments_prefix_none(keys, mv, i + 1);
                    }
                    return None;
                },
            }
        } else if string_is(&media.kind, "gif") || string_is(&media.kind, "video") {
            match &media.preview_image_url {
                Some(u) => {
                    let ghost prev = attachments@;
                    attachments.push((media.kind.clone(), u.clone()));
                    proof {
                        lemma_pairs_push(prev, attachments@.last());
                    }
                },
                None => {
                    proof {
                        assert(attachments_built(keys.take(i + 1), mv) is None);
                        lemma_attachments_prefix_none(keys, mv, i + 1);
                    }
                    return None;
                },
            }
        }
        proof {
            assert(attachments_built(keys.take(i + 1), mv) == Some(pairs_view(attachments@)));
        }
        i += 1;
    }
    proof {
        assert(keys.take(keys.len() as int) =~= keys);
    }

    let rec = Record {
        tweet_id: tweet.id.clone(),
        author_id: tweet.author_id.clone(),
        created_at: tweet.created_at.clone(),
        text: tweet.text.clone(),
        name: user.name.clone(),
        username: user.username.clone(),
        profile_image_url: user.profile_image_url.clone(),
        attachments,
    };
    proof {
        assert(record_built(tweet@, keys, user_views(users@), mv) == Some(rec@)) by {
            assert(rec@ =~= record_built(tweet@, keys, user_views(users@), mv).unwrap());
        }
    }
    Some(rec)
}

/// The first position of a cached speech with this id, if any.
fn vec_find_speech(v: &Vec<Speech>, id: &String) -> (r: Option<usize>)
    ensures
        match r {
            Some(p) => {
                &&& p < v@.len()
                &&& speech_ids(speeches(v@))[p as int] == id@
                &&& forall|k: int| 0 <= k < p ==> speech_ids(speeches(v@))[k] != id@
            },
            None => !speech_ids(speeches(v@)).contains(id@),
        },
{
    let mut i: usize = 0;
    while i < v.len()
        invariant
            i <= v.len(),
            forall|k: int| 0 <= k < i ==> speech_ids(speeches(v@))[k] != id@,
        decreases v.len() - i,
    {
        if v[i].tweet_id == *id {
            proof {
                assert(speech_ids(speeches(v@))[i as int] == id@);
            }
            return Some(i);
        }
        i += 1;
    }
    None
}

} // verus!
