//! The decision core of the scheduling loop: one `Scheduler` owns both
//! timeline contexts, the playback settings and the synthesis state, and
//! every event handler returns the commands the process shell must send
//! to the audio and display collaborators.

use vstd::prelude::*;

use crate::audio_player::AudioControl;
use crate::display_bridge::{
    deletes_of, displays, lemma_displays_snoc, DisplayContrl, DisplayV, ViewElements,
};
use crate::scheduler::{
    invalidate_post, jump_dropped, jump_post, strs, Context, Record, Settings, TTSState,
};
use crate::twitter_agent::{Timeline, TimelineV};
use crate::user_input::UserInput;
use crate::voicegen_agent;
use crate::voicegen_agent::{Playbook, Speech};

verus! {

/// The commands one event handler asks the process shell to send out.
#[derive(Debug)]
pub struct Effects {
    pub audio: Vec<AudioControl>,
    pub display: Vec<DisplayContrl>,
}

impl Effects {
    /// No commands.
    fn none() -> (r: Effects)
        ensures
            r.audio@.len() == 0,
            r.display@.len() == 0,
    {
        Effects { audio: Vec::new(), display: Vec::new() }
    }
}

/// The scheduling state of the whole process: one context per timeline,
/// which timeline the user views, which search query is tracked, the
/// synthesis state and the settings.
pub struct Scheduler {
    pub current_tl_view: Timeline,
    pub current_search_tl: Timeline,
    pub ctx_user: Context,
    pub ctx_search: Context,
    pub tts_state: TTSState,
    pub settings: Settings,
}

impl Scheduler {
    /// Whether the user timeline is the one viewed.
    pub open spec fn views_user(&self) -> bool {
        self.current_tl_view@ is User
    }

    /// The context of the viewed timeline: the only one that synthesizes
    /// and plays.
    pub open spec fn active(&self) -> Context {
        if self.views_user() {
            self.ctx_user
        } else {
            self.ctx_search
        }
    }

    /// Well-formedness: both contexts are well-formed, the tracked search
    /// timeline is a search, and an in-flight synthesis always concerns
    /// the head of the viewed context's wait queue.
    pub open spec fn wf(&self) -> bool {
        &&& self.ctx_user.wf()
        &&& self.ctx_search.wf()
        &&& self.ctx_user.name@ == "user"@
        &&& self.ctx_search.name@ == "search"@
        &&& self.current_search_tl@ is Search
        &&& (self.tts_state matches TTSState::Processing(id) ==> self.active().wait().len() > 0
            && self.active().wait()[0].tweet_id == id@)
    }

    /// A fresh scheduler: both contexts empty, the user timeline viewed,
    /// no synthesis in flight, default settings.
    pub fn new() -> (s: Self)
        ensures
            s.wf(),
            s.views_user(),
            s.current_tl_view@ == TimelineV::User,
            s.ctx_user.wait().len() == 0,
            s.ctx_user.ready().len() == 0,
            s.ctx_user.played().len() == 0,
            s.ctx_user.cache().len() == 0,
            s.ctx_user.forcus_id is None,
            s.ctx_search.wait().len() == 0,
            s.ctx_search.ready().len() == 0,
            s.ctx_search.played().len() == 0,
            s.ctx_search.cache().len() == 0,
            s.ctx_search.forcus_id is None,
            s.ctx_user.history_limit == crate::HISTORY_LENGTH,
            s.ctx_search.history_limit == crate::HISTORY_LENGTH,
            s.tts_state is Waiting,
            s.settings == Settings::new_spec(),
    {
        Self::new_with_limit(crate::HISTORY_LENGTH)
    }

    /// A fresh scheduler whose contexts keep at most `history_limit`
    /// played records.
    pub fn new_with_limit(history_limit: usize) -> (s: Self)
        requires
            history_limit >= 1,
        ensures
            s.wf(),
            s.views_user(),
            s.current_tl_view@ == TimelineV::User,
            s.ctx_user.wait().len() == 0,
            s.ctx_user.ready().len() == 0,
            s.ctx_user.played().len() == 0,
            s.ctx_user.cache().len() == 0,
            s.ctx_user.forcus_id is None,
            s.ctx_search.wait().len() == 0,
            s.ctx_search.ready().len() == 0,
            s.ctx_search.played().len() == 0,
            s.ctx_search.cache().len() == 0,
            s.ctx_search.forcus_id is None,
            s.ctx_user.history_limit == history_limit,
            s.ctx_search.history_limit == history_limit,
            s.tts_state is Waiting,
            s.settings == Settings::new_spec(),
    {
        Scheduler {
            current_tl_view: Timeline::User,
            current_search_tl: Timeline::Search { query: String::new() },
            ctx_user: Context::new_with_limit("user".to_owned(), history_limit),
            ctx_search: Context::new_with_limit("search".to_owned(), history_limit),
            tts_state: TTSState::Waiting,
            settings: Settings::new(),
        }
    }

    /// Whether ingestion is paused; a paused scheduler is not offered new
    /// records.
    pub fn is_paused(&self) -> (r: bool)
        ensures
            r == self.settings.paused,
    {
        self.settings.paused
    }

    /// Whether the viewed context has a record ready for playback.
    pub fn is_speech_ready(&self) -> (r: bool)
        ensures
            r == (self.active().ready().len() > 0),
    {
        match self.current_tl_view {
            Timeline::User => self.ctx_user.is_speech_ready(),
            Timeline::Search { .. } => self.ctx_search.is_speech_ready(),
        }
    }

    /// Whether a synthesis result is due, and — when one is in flight —
    /// whether this result carries the id that was requested.
    pub fn accepts_speech(&self, speech: &Option<Speech>) -> (r: bool)
        ensures
            r == (!(self.tts_state is Waiting) && (match (self.tts_state, *speech) {
                (TTSState::Processing(id), Some(s)) => s.tweet_id@ == id@,
                _ => true,
            })),
    {
        match (&self.tts_state, speech) {
            (TTSState::Waiting, _) => false,
            (TTSState::Processing(id), Some(s)) => s.tweet_id == *id,
            _ => true,
        }
    }

    /// Starts a synthesis if the viewed context has work and none is in
    /// flight: marks the head of its wait queue as processing and returns
    /// the job to send to the synthesis collaborator.
    pub fn advance_synthesis(&mut self) -> (r: Option<Playbook>)
        requires
            old(self).wf(),
        ensures
            final(self).wf(),
            old(self).active().wait().len() > 0 && old(self).tts_state is Waiting ==> {
                &&& final(self).tts_state matches TTSState::Processing(id) && id@ == old(
                    self,
                ).active().wait()[0].tweet_id
                &&& r matches Some(pb) && {
                    &&& pb.tweet_id@ == old(self).active().wait()[0].tweet_id
                    &&& pb.text@ == old(self).active().wait()[0].text
                    &&& pb.name@ == old(self).active().wait()[0].name
                    &&& pb.addr == old(self).settings.addr
                    &&& pb.speaker == old(self).settings.speaker
                    &&& pb.speech_rate_milli == old(self).settings.speech_rate_milli
                }
                &&& final(self).ctx_user == old(self).ctx_user
                &&& final(self).ctx_search == old(self).ctx_search
                &&& final(self).settings == old(self).settings
                &&& final(self).current_tl_view == old(self).current_tl_view
                &&& final(self).current_search_tl == old(self).current_search_tl
            },
            !(old(self).active().wait().len() > 0 && old(self).tts_state is Waiting) ==> {
                &&& *final(self) == *old(self)
                &&& r is None
            },
    {
        let waiting = matches!(self.tts_state, TTSState::Waiting);
        let has_wait = match self.current_tl_view {
            Timeline::User => self.ctx_user.wait_list.len() > 0,
            Timeline::Search { .. } => self.ctx_search.wait_list.len() > 0,
        };
        if has_wait && waiting {
            let r = match self.current_tl_view {
                Timeline::User => self.ctx_user.fetch_for_tts(),
                Timeline::Search { .. } => self.ctx_search.fetch_for_tts(),
            };
            self.tts_state = TTSState::Processing(r.tweet_id.clone());
            Some(
                voicegen_agent::into(
                    r,
                    self.settings.addr,
                    self.settings.speaker,
                    self.settings.speech_rate_milli,
                ),
            )
        } else {
            None
        }
    }

    /// Books an arrived synthesis result.  A cancelled result is
    /// discarded; otherwise the viewed context advances (a failure leaves
    /// its wait queue untouched, so the head is retried).  Either way the
    /// scheduler is ready to request the next synthesis.
    pub fn handle_tts_result(&mut self, speech: Option<Speech>)
        requires
            old(self).wf(),
            !(old(self).tts_state is Waiting),
            match (old(self).tts_state, speech) {
                (TTSState::Processing(id), Some(s)) => s.tweet_id@ == id@,
                _ => true,
            },
        ensures
            final(self).wf(),
            final(self).tts_state is Waiting,
            final(self).settings == old(self).settings,
            final(self).current_tl_view == old(self).current_tl_view,
            final(self).current_search_tl == old(self).current_search_tl,
            old(self).tts_state matches TTSState::Canceling(_) ==> {
                &&& final(self).ctx_user == old(self).ctx_user
                &&& final(self).ctx_search == old(self).ctx_search
            },
            old(self).tts_state matches TTSState::Processing(_) ==> {
                &&& (if old(self).views_user() {
                    final(self).ctx_search == old(self).ctx_search
                } else {
                    final(self).ctx_user == old(self).ctx_user
                })
                &&& speech is None ==> {
                    &&& final(self).ctx_user == old(self).ctx_user
                    &&& final(self).ctx_search == old(self).ctx_search
                }
                &&& speech matches Some(s) ==> {
                    &&& final(self).active().wait() == old(self).active().wait().drop_first()
                    &&& final(self).active().ready() == old(self).active().ready().push(
                        old(self).active().wait()[0],
                    )
                    &&& final(self).active().cache() == old(self).active().cache().push(s@)
                    &&& final(self).active().played() == old(self).active().played()
                    &&& final(self).active().ready() + final(self).active().wait() == old(
                        self,
                    ).active().ready() + old(self).active().wait()
                    &&& final(self).active().forcus_id == old(self).active().forcus_id
                    &&& final(self).active().name == old(self).active().name
                    &&& final(self).active().history_limit == old(self).active().history_limit
                }
            },
    {
        let canceling = matches!(self.tts_state, TTSState::Canceling(_));
        if !canceling {
            match self.current_tl_view {
                Timeline::User => self.ctx_user.add_tss_result(speech),
                Timeline::Search { .. } => self.ctx_search.add_tss_result(speech),
            }
        }
        self.tts_state = TTSState::Waiting;
    }

    /// Whether a record with this id may enter the context that `tl`
    /// resolves to.  A search record carrying a new query may always
    /// enter, because the search context is flushed first.
    pub open spec fn accepts_tweet(&self, tl: TimelineV, id: Seq<char>) -> bool {
        match tl {
            TimelineV::User => !self.ctx_user.has_id(id),
            TimelineV::Search(_) => tl != self.current_search_tl@ || !self.ctx_search.has_id(id),
        }
    }

    /// Whether this record may be handed to `handle_new_tweet`: its id
    /// must not already sit in the timeline it belongs to.
    pub fn may_accept_tweet(&self, tl: &Timeline, msg: &Record) -> (r: bool)
        ensures
            r == self.accepts_tweet(tl@, msg@.tweet_id),
    {
        match tl {
            Timeline::User => !self.ctx_user.contains_id(&msg.tweet_id),
            Timeline::Search { .. } => !(*tl == self.current_search_tl) || !self.ctx_search.contains_id(
                &msg.tweet_id,
            ),
        }
    }

    /// Ingests one record.  A search record whose query differs from the
    /// tracked one first flushes the search context (audio stops, every
    /// held record is deleted from the display, the query is adopted).
    /// The record then joins its timeline's wait queue and is shown; if
    /// that timeline has no focus yet, the record becomes the focus and
    /// the display scrolls to it.
    pub fn handle_new_tweet(&mut self, tl: &Timeline, msg: &Record) -> (out: Effects)
        requires
            old(self).wf(),
            !old(self).settings.paused,
            old(self).accepts_tweet(tl@, msg@.tweet_id),
        ensures
            final(self).wf(),
            final(self).settings == old(self).settings,
            final(self).current_tl_view == old(self).current_tl_view,
            ({
                let flush = tl@ is Search && tl@ != old(self).current_search_tl@;
                if flush {
                    let pre = old(self).ctx_search;
                    &&& final(self).current_search_tl@ == tl@
                    &&& final(self).ctx_user == old(self).ctx_user
                    &&& final(self).ctx_search.wait() == seq![msg@]
                    &&& final(self).ctx_search.ready().len() == 0
                    &&& final(self).ctx_search.played().len() == 0
                    &&& final(self).ctx_search.cache().len() == 0
                    &&& final(self).ctx_search.focus() == Some(msg@.tweet_id)
                    &&& final(self).ctx_search.name == pre.name
                    &&& final(self).ctx_search.history_limit == pre.history_limit
                    &&& (if old(self).views_user() {
                        final(self).tts_state == old(self).tts_state
                    } else {
                        cancel_step(old(self).tts_state, final(self).tts_state)
                    })
                    &&& out.audio@.len() == 1 && out.audio@[0] is Stop
                    &&& displays(out.display@) == deletes_of(
                        pre.name@,
                        pre.wait_ids() + pre.ready_ids() + pre.played_ids(),
                    ) + seq![
                        DisplayV::Add(pre.name@, msg@),
                        DisplayV::Scroll(pre.name@, msg@.tweet_id),
                    ]
                } else {
                    let pre = if tl@ is User {
                        old(self).ctx_user
                    } else {
                        old(self).ctx_search
                    };
                    let post = if tl@ is User {
                        final(self).ctx_user
                    } else {
                        final(self).ctx_search
                    };
                    &&& final(self).current_search_tl == old(self).current_search_tl
                    &&& final(self).tts_state == old(self).tts_state
                    &&& out.audio@.len() == 0
                    &&& (if tl@ is User {
                        final(self).ctx_search == old(self).ctx_search
                    } else {
                        final(self).ctx_user == old(self).ctx_user
                    })
                    &&& post.wait() == pre.wait().push(msg@)
                    &&& post.ready() == pre.ready()
                    &&& post.played() == pre.played()
                    &&& post.cache() == pre.cache()
                    &&& post.name == pre.name
                    &&& post.history_limit == pre.history_limit
                    &&& (if pre.focus() is None {
                        &&& post.focus() == Some(msg@.tweet_id)
                        &&& displays(out.display@) == seq![
                            DisplayV::Add(pre.name@, msg@),
                            DisplayV::Scroll(pre.name@, msg@.tweet_id),
                        ]
                    } else {
                        &&& post.focus() == pre.focus()
                        &&& displays(out.display@) == seq![DisplayV::Add(pre.name@, msg@)]
                    })
                }
            }),
    {
        let mut out = Effects::none();
        let flush = match tl {
            Timeline::Search { .. } => !(*tl == self.current_search_tl),
            Timeline::User => false,
        };
        if flush {
            out.audio.push(AudioControl::Stop);
            self.ctx_search.forcus_id = None;
            let dropped = self.ctx_search.drop_all();
            let name = self.ctx_search.name.clone();
            push_deletes(&mut out.display, &name, &dropped);
            if !matches!(self.current_tl_view, Timeline::User) {
                self.cancel_if_processing();
            }
            self.current_search_tl = tl.clone();
        }
        match tl {
            Timeline::User => {
                let ghost disp0 = out.display@;
                out.display.push(
                    DisplayContrl::Add(self.ctx_user.name.clone(), ViewElements::from(msg.clone())),
                );
                proof {
                    lemma_displays_snoc(disp0, out.display@[disp0.len() as int]);
                    assert(out.display@[disp0.len() as int]@ == DisplayV::Add(
                        old(self).ctx_user.name@,
                        msg@,
                    ));
                }
                self.ctx_user.add_new_tweet(msg);
                if self.ctx_user.forcus_id.is_none() {
                    self.ctx_user.forcus_id = Some(msg.tweet_id.clone());
                    let ghost disp1 = out.display@;
                    out.display.push(
                        DisplayContrl::Scroll(self.ctx_user.name.clone(), msg.tweet_id.clone()),
                    );
                    proof {
                        lemma_displays_snoc(disp1, out.display@[disp1.len() as int]);
                        assert(displays(out.display@) =~= seq![
                            DisplayV::Add(old(self).ctx_user.name@, msg@),
                            DisplayV::Scroll(old(self).ctx_user.name@, msg@.tweet_id),
                        ]);
                    }
                }
            },
            Timeline::Search { .. } => {
                let ghost disp0 = out.display@;
                out.display.push(
                    DisplayContrl::Add(
                        self.ctx_search.name.clone(),
                        ViewElements::from(msg.clone()),
                    ),
                );
                proof {
                    lemma_displays_snoc(disp0, out.display@[disp0.len() as int]);
                    assert(out.display@[disp0.len() as int]@ == DisplayV::Add(
                        old(self).ctx_search.name@,
                        msg@,
                    ));
                }
                self.ctx_search.add_new_tweet(msg);
                if self.ctx_search.forcus_id.is_none() {
                    self.ctx_search.forcus_id = Some(msg.tweet_id.clone());
                    let ghost disp1 = out.display@;
                    out.display.push(
                        DisplayContrl::Scroll(self.ctx_search.name.clone(), msg.tweet_id.clone()),
                    );
                    proof {
                        lemma_displays_snoc(disp1, out.display@[disp1.len() as int]);
                    }
                }
                proof {
                    if tl@ != old(self).current_search_tl@ {
                        let pre = old(self).ctx_search;
                        assert(self.ctx_search.wait() =~= seq![msg@]);
                        assert(displays(out.display@) =~= deletes_of(
                            pre.name@,
                            pre.wait_ids() + pre.ready_ids() + pre.played_ids(),
                        ) + seq![
                            DisplayV::Add(pre.name@, msg@),
                            DisplayV::Scroll(pre.name@, msg@.tweet_id),
                        ]);
                    } else {
                        if old(self).ctx_search.focus() is None {
                            assert(displays(out.display@) =~= seq![
                                DisplayV::Add(old(self).ctx_search.name@, msg@),
                                DisplayV::Scroll(old(self).ctx_search.name@, msg@.tweet_id),
                            ]);
                        } else {
                            assert(displays(out.display@) =~= seq![
                                DisplayV::Add(old(self).ctx_search.name@, msg@),
                            ]);
                        }
                    }
                }
            },
        }
        out
    }

    /// Pops the head of the viewed context's ready queue and returns the
    /// commands that play its speech, delete an evicted history record if
    /// one overflowed, and scroll the display to the played record.
    pub fn handle_audio_ready(&mut self) -> (out: Effects)
        requires
            old(self).wf(),
            old(self).active().ready().len() > 0,
        ensures
            final(self).wf(),
            final(self).tts_state == old(self).tts_state,
            final(self).settings == old(self).settings,
            final(self).current_tl_view == old(self).current_tl_view,
            final(self).current_search_tl == old(self).current_search_tl,
            (if old(self).views_user() {
                final(self).ctx_search == old(self).ctx_search
            } else {
                final(self).ctx_user == old(self).ctx_user
            }),
            final(self).active().wait() == old(self).active().wait(),
            final(self).active().ready() == old(self).active().ready().drop_first(),
            final(self).active().cache() == old(self).active().cache().drop_first(),
            final(self).active().focus() == Some(old(self).active().ready()[0].tweet_id),
            final(self).active().name == old(self).active().name,
            final(self).active().history_limit == old(self).active().history_limit,
            out.audio@.len() == 1,
            out.audio@[0] matches AudioControl::PlayMulti(v) && v@.len() == 2 && v@[0]@ == old(
                self,
            ).active().cache()[0].name && v@[1]@ == old(self).active().cache()[0].text,
            ({
                let pre = old(self).active();
                let pushed = pre.played().push(pre.ready()[0]);
                if pushed.len() > pre.history_limit {
                    &&& final(self).active().played() == pushed.drop_first()
                    &&& displays(out.display@) == seq![
                        DisplayV::Delete(pre.name@, pre.played()[0].tweet_id),
                        DisplayV::Scroll(pre.name@, pre.ready()[0].tweet_id),
                    ]
                } else {
                    &&& final(self).active().played() == pushed
                    &&& displays(out.display@) == seq![
                        DisplayV::Scroll(pre.name@, pre.ready()[0].tweet_id),
                    ]
                }
            }),
    {
        match self.current_tl_view {
            Timeline::User => do_playback(&mut self.ctx_user),
            Timeline::Search { .. } => do_playback(&mut self.ctx_search),
        }
    }

    /// Moves an in-flight synthesis to the cancelling state, so that its
    /// eventual result is discarded; in any other state does nothing.
    fn cancel_if_processing(&mut self)
        ensures
            cancel_step(old(self).tts_state, final(self).tts_state),
            final(self).ctx_user == old(self).ctx_user,
            final(self).ctx_search == old(self).ctx_search,
            final(self).settings == old(self).settings,
            final(self).current_tl_view == old(self).current_tl_view,
            final(self).current_search_tl == old(self).current_search_tl,
    {
        let next = match &self.tts_state {
            TTSState::Processing(id) => Some(id.clone()),
            _ => None,
        };
        if let Some(id) = next {
            self.tts_state = TTSState::Canceling(id);
        }
    }

    /// Applies one user command as soon as it arrives and returns the
    /// commands to send out.  A jump stops the audio and cancels an
    /// in-flight synthesis first; an empty jump id does only that,
    /// touching no queue; voice changes invalidate the viewed context's
    /// pending speech; a view change switches the active context and
    /// scrolls to its focus.
    pub fn handle_user_input(&mut self, input: UserInput) -> (out: Effects)
        requires
            old(self).wf(),
        ensures
            final(self).wf(),
            match input {
                UserInput::Jump(t) => if t@.len() == 0 {
                    &&& cancel_step(old(self).tts_state, final(self).tts_state)
                    &&& final(self).ctx_user == old(self).ctx_user
                    &&& final(self).ctx_search == old(self).ctx_search
                    &&& final(self).settings == old(self).settings
                    &&& final(self).current_tl_view == old(self).current_tl_view
                    &&& final(self).current_search_tl == old(self).current_search_tl
                    &&& out.audio@.len() == 1 && out.audio@[0] is Stop
                    &&& out.display@.len() == 0
                } else {
                    let pre = old(self).active();
                    &&& out.audio@.len() == 1 && out.audio@[0] is Stop
                    &&& cancel_step(old(self).tts_state, final(self).tts_state)
                    &&& (if old(self).views_user() {
                        final(self).ctx_search == old(self).ctx_search
                    } else {
                        final(self).ctx_user == old(self).ctx_user
                    })
                    &&& jump_post(pre, final(self).active(), t@, jump_dropped(pre, t@))
                    &&& final(self).active().focus() == Some(t@)
                    &&& final(self).active().name == pre.name
                    &&& final(self).active().history_limit == pre.history_limit
                    &&& displays(out.display@) == deletes_of(pre.name@, jump_dropped(pre, t@))
                        + seq![DisplayV::Scroll(pre.name@, t@)]
                    &&& final(self).settings == old(self).settings
                    &&& final(self).current_tl_view == old(self).current_tl_view
                    &&& final(self).current_search_tl == old(self).current_search_tl
                },
                UserInput::Paused(b) => {
                    &&& *final(self) == with_paused(*old(self), b)
                    &&& out.audio@.len() == 0 && out.display@.len() == 0
                },
                UserInput::Speaker(sp) => {
                    &&& final(self).settings == (Settings {
                        addr: sp.addr,
                        speaker: sp.speaker,
                        ..old(self).settings
                    })
                    &&& invalidate_post(old(self).active(), final(self).active())
                    &&& (if old(self).views_user() {
                        final(self).ctx_search == old(self).ctx_search
                    } else {
                        final(self).ctx_user == old(self).ctx_user
                    })
                    &&& cancel_step(old(self).tts_state, final(self).tts_state)
                    &&& final(self).current_tl_view == old(self).current_tl_view
                    &&& final(self).current_search_tl == old(self).current_search_tl
                    &&& out.audio@.len() == 0 && out.display@.len() == 0
                },
                UserInput::SpeechRate(rate) => {
                    &&& final(self).settings == (Settings {
                        speech_rate_milli: rate,
                        ..old(self).settings
                    })
                    &&& invalidate_post(old(self).active(), final(self).active())
                    &&& (if old(self).views_user() {
                        final(self).ctx_search == old(self).ctx_search
                    } else {
                        final(self).ctx_user == old(self).ctx_user
                    })
                    &&& cancel_step(old(self).tts_state, final(self).tts_state)
                    &&& final(self).current_tl_view == old(self).current_tl_view
                    &&& final(self).current_search_tl == old(self).current_search_tl
                    &&& out.audio@.len() == 0 && out.display@.len() == 0
                },
                UserInput::TimelineView(tl) => {
                    let switching = tl@ != old(self).current_tl_view@;
                    &&& final(self).current_tl_view@ == tl@
                    &&& final(self).settings == old(self).settings
                    &&& final(self).current_search_tl == old(self).current_search_tl
                    &&& (if switching {
                        &&& out.audio@.len() == 1 && out.audio@[0] is Stop
                        &&& invalidate_post(
                            old(self).active(),
                            if old(self).views_user() {
                                final(self).ctx_user
                            } else {
                                final(self).ctx_search
                            },
                        )
                        &&& (if old(self).views_user() {
                            final(self).ctx_search == old(self).ctx_search
                        } else {
                            final(self).ctx_user == old(self).ctx_user
                        })
                        &&& cancel_step(old(self).tts_state, final(self).tts_state)
                    } else {
                        &&& final(self).ctx_user == old(self).ctx_user
                        &&& final(self).ctx_search == old(self).ctx_search
                        &&& final(self).tts_state == old(self).tts_state
                        &&& out.audio@.len() == 0
                    })
                    &&& (match final(self).active().focus() {
                        Some(f) => displays(out.display@) == seq![
                            DisplayV::Scroll(final(self).active().name@, f),
                        ],
                        None => out.display@.len() == 0,
                    })
                },
            },
    {
        let mut out = Effects::none();
        match input {
            UserInput::Jump(twid) => {
                out.audio.push(AudioControl::Stop);
                self.cancel_if_processing();
                if twid.as_str().is_empty() {
                    return out;
                }
                let ghost pre = self.active();
                let dropped = match self.current_tl_view {
                    Timeline::User => self.ctx_user.jump_to_twid(&twid),
                    Timeline::Search { .. } => self.ctx_search.jump_to_twid(&twid),
                };
                proof {
                    assert(strs(dropped@) == jump_dropped(pre, twid@));
                }
                let name = match self.current_tl_view {
                    Timeline::User => self.ctx_user.name.clone(),
                    Timeline::Search { .. } => self.ctx_search.name.clone(),
                };
                push_deletes(&mut out.display, &name, &dropped);
                match self.current_tl_view {
                    Timeline::User => self.ctx_user.forcus_id = Some(twid.clone()),
                    Timeline::Search { .. } => self.ctx_search.forcus_id = Some(twid.clone()),
                }
                let ghost disp_before = out.display@;
                out.display.push(DisplayContrl::Scroll(name, twid));
                proof {
                    lemma_displays_snoc(disp_before, out.display@[disp_before.len() as int]);
                    assert(displays(out.display@) =~= deletes_of(pre.name@, jump_dropped(pre, twid@))
                        + seq![DisplayV::Scroll(pre.name@, twid@)]);
                }
            },
            UserInput::Paused(b) => {
                self.settings.paused = b;
            },
            UserInput::Speaker(sp) => {
                self.settings.addr = sp.addr;
                self.settings.speaker = sp.speaker;
                match self.current_tl_view {
                    Timeline::User => self.ctx_user.remove_cache(),
                    Timeline::Search { .. } => self.ctx_search.remove_cache(),
                }
                self.cancel_if_processing();
            },
            UserInput::SpeechRate(rate) => {
                self.settings.speech_rate_milli = rate;
                match self.current_tl_view {
                    Timeline::User => self.ctx_user.remove_cache(),
                    Timeline::Search { .. } => self.ctx_search.remove_cache(),
                }
                self.cancel_if_processing();
            },
            UserInput::TimelineView(timeline) => {
                let switching = !(timeline == self.current_tl_view);
                if switching {
                    out.audio.push(AudioControl::Stop);
                    match self.current_tl_view {
                        Timeline::User => self.ctx_user.remove_cache(),
                        Timeline::Search { .. } => self.ctx_search.remove_cache(),
                    }
                    self.cancel_if_processing();
                }
                self.current_tl_view = timeline;
                let name = match self.current_tl_view {
                    Timeline::User => self.ctx_user.name.clone(),
                    Timeline::Search { .. } => self.ctx_search.name.clone(),
                };
                let focus = match self.current_tl_view {
                    Timeline::User => match &self.ctx_user.forcus_id {
                        Some(s) => Some(s.clone()),
                        None => None,
                    },
                    Timeline::Search { .. } => match &self.ctx_search.forcus_id {
                        Some(s) => Some(s.clone()),
                        None => None,
                    },
                };
                if let Some(fid) = focus {
                    let ghost disp_before = out.display@;
                    out.display.push(DisplayContrl::Scroll(name, fid));
                    proof {
                        lemma_displays_snoc(disp_before, out.display@[0]);
                        assert(displays(out.display@) =~= seq![
                            DisplayV::Scroll(self.active().name@, self.active().focus().unwrap()),
                        ]);
                    }
                }
            },
        }
        out
    }
}

/// The scheduler with its paused flag set to `b` and nothing else
/// changed.
pub open spec fn with_paused(s: Scheduler, b: bool) -> Scheduler {
    Scheduler { settings: Settings { paused: b, ..s.settings }, ..s }
}

/// Law: pausing is idempotent — issuing `Paused(b)` twice in a row
/// leaves the same scheduler as issuing it once.  A pause changes
/// nothing but the flag, and a paused scheduler is simply not offered
/// new records; undelivered records stay with the process shell's
/// ingestion channel, which hands them over in order once unpaused.
pub proof fn lemma_pause_idempotent(s: Scheduler, b: bool)
    ensures
        with_paused(with_paused(s, b), b) == with_paused(s, b),
{
}

/// Law: in every well-formed scheduler — and every handler returns one —
/// each context's speech cache holds exactly the ids of its ready
/// records, and each played history respects its bound.
pub proof fn lemma_scheduler_invariants(s: Scheduler)
    requires
        s.wf(),
    ensures
        crate::voicegen_agent::speech_ids(s.ctx_user.cache()).to_set() == crate::scheduler::rec_ids(
            s.ctx_user.ready(),
        ).to_set(),
        crate::voicegen_agent::speech_ids(s.ctx_search.cache()).to_set()
            == crate::scheduler::rec_ids(s.ctx_search.ready()).to_set(),
        s.ctx_user.played().len() <= s.ctx_user.history_limit,
        s.ctx_search.played().len() <= s.ctx_search.history_limit,
{
    crate::scheduler::lemma_cache_matches_ready(s.ctx_user);
    crate::scheduler::lemma_cache_matches_ready(s.ctx_search);
}

/// What cancelling does to the synthesis state: an in-flight synthesis
/// becomes cancelled, anything else stays put.
pub open spec fn cancel_step(pre: TTSState, post: TTSState) -> bool {
    match pre {
        TTSState::Processing(id) => post == TTSState::Canceling(id),
        _ => post == pre,
    }
}

/// Performs the playback step on one context and assembles its commands.
fn do_playback(ctx: &mut Context) -> (out: Effects)
    requires
        old(ctx).wf(),
        old(ctx).ready().len() > 0,
    ensures
        final(ctx).wf(),
        final(ctx).wait() == old(ctx).wait(),
        final(ctx).ready() == old(ctx).ready().drop_first(),
        final(ctx).cache() == old(ctx).cache().drop_first(),
        final(ctx).focus() == Some(old(ctx).ready()[0].tweet_id),
        final(ctx).name == old(ctx).name,
        final(ctx).history_limit == old(ctx).history_limit,
        out.audio@.len() == 1,
        out.audio@[0] matches AudioControl::PlayMulti(v) && v@.len() == 2 && v@[0]@ == old(
            ctx,
        ).cache()[0].name && v@[1]@ == old(ctx).cache()[0].text,
        ({
            let pushed = old(ctx).played().push(old(ctx).ready()[0]);
            if pushed.len() > old(ctx).history_limit {
                &&& final(ctx).played() == pushed.drop_first()
                &&& displays(out.display@) == seq![
                    DisplayV::Delete(old(ctx).name@, old(ctx).played()[0].tweet_id),
                    DisplayV::Scroll(old(ctx).name@, old(ctx).ready()[0].tweet_id),
                ]
            } else {
                &&& final(ctx).played() == pushed
                &&& displays(out.display@) == seq![
                    DisplayV::Scroll(old(ctx).name@, old(ctx).ready()[0].tweet_id),
                ]
            }
        }),
{
    let mut out = Effects::none();
    let (speech, overflow) = ctx.fetch_for_playback();

    let mut voice_pack: Vec<Vec<u8>> = Vec::new();
    voice_pack.push(speech.name);
    voice_pack.push(speech.text);
    out.audio.push(AudioControl::PlayMulti(voice_pack));

    if let Some(twid) = overflow {
        let ghost disp_before = out.display@;
        out.display.push(DisplayContrl::Delete(ctx.name.clone(), twid));
        proof {
            lemma_displays_snoc(disp_before, out.display@[0]);
        }
    }
    let tid = speech.tweet_id;
    ctx.forcus_id = Some(tid.clone());
    let ghost disp_before = out.display@;
    out.display.push(DisplayContrl::Scroll(ctx.name.clone(), tid));
    proof {
        lemma_displays_snoc(disp_before, out.display@[disp_before.len() as int]);
        let pushed = old(ctx).played().push(old(ctx).ready()[0]);
        if pushed.len() > old(ctx).history_limit {
            assert(displays(out.display@) =~= seq![
                DisplayV::Delete(old(ctx).name@, old(ctx).played()[0].tweet_id),
                DisplayV::Scroll(old(ctx).name@, old(ctx).ready()[0].tweet_id),
            ]);
        } else {
            assert(displays(out.display@) =~= seq![
                DisplayV::Scroll(old(ctx).name@, old(ctx).ready()[0].tweet_id),
            ]);
        }
    }
    out
}

/// Appends one delete command per dropped id, all for the same timeline.
fn push_deletes(display: &mut Vec<DisplayContrl>, name: &String, ids: &Vec<String>)
    ensures
        displays(final(display)@) == displays(old(display)@) + deletes_of(name@, strs(ids@)),
{
    let mut i: usize = 0;
    proof {
        assert(displays(display@) =~= displays(old(display)@) + deletes_of(
            name@,
            strs(ids@).take(0),
        ));
    }
    while i < ids.len()
        invariant
            i <= ids@.len(),
            displays(display@) == displays(old(display)@) + deletes_of(
                name@,
                strs(ids@).take(i as int),
            ),
        decreases ids@.len() - i,
    {
        let ghost prev = display@;
        display.push(DisplayContrl::Delete(name.clone(), ids[i].clone()));
        proof {
            lemma_displays_snoc(prev, display@[prev.len() as int]);
            assert(display@[prev.len() as int]@ == DisplayV::Delete(name@, strs(ids@)[i as int]));
            assert(deletes_of(name@, strs(ids@).take(i + 1)) =~= deletes_of(
                name@,
                strs(ids@).take(i as int),
            ).push(DisplayV::Delete(name@, strs(ids@)[i as int])));
            assert(displays(display@) =~= displays(old(display)@) + deletes_of(
                name@,
                strs(ids@).take(i + 1),
            ));
        }
        i += 1;
    }
    proof {
        assert(strs(ids@).take(strs(ids@).len() as int) =~= strs(ids@));
    }
}

} // verus!
