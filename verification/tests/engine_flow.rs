use tweet_reader::audio_player::AudioControl;
use tweet_reader::display_bridge::DisplayContrl;
use tweet_reader::engine::Scheduler;
use tweet_reader::scheduler::{Record, TTSState};
use tweet_reader::twitter_agent::Timeline;
use tweet_reader::user_input::UserInput;
use tweet_reader::voicegen_agent::Speech;
use tweet_reader::voicegen_data::NetAddr;
use tweet_reader::voicegen_observer::Speaker;

fn rec(id: &str) -> Record {
    Record {
        tweet_id: id.to_string(),
        author_id: "a".to_string(),
        created_at: "2023-01-01T00:00:00Z".to_string(),
        text: format!("text {}", id),
        name: "Name".to_string(),
        username: "user".to_string(),
        profile_image_url: "http://img".to_string(),
        attachments: Vec::new(),
    }
}

fn speech(id: &str) -> Speech {
    Speech { tweet_id: id.to_string(), text: vec![1, 2, 3], name: vec![4, 5] }
}

fn feed(s: &mut Scheduler, id: &str) {
    let tl = Timeline::User;
    let msg = rec(id);
    assert!(!s.is_paused());
    assert!(s.may_accept_tweet(&tl, &msg));
    s.handle_new_tweet(&tl, &msg);
}

fn wait_ids_user(s: &Scheduler) -> Vec<String> {
    s.ctx_user.wait_list.iter().map(|r| r.tweet_id.clone()).collect()
}

fn ready_ids_user(s: &Scheduler) -> Vec<String> {
    s.ctx_user.ready_list.iter().map(|r| r.tweet_id.clone()).collect()
}

fn played_ids_user(s: &Scheduler) -> Vec<String> {
    s.ctx_user.played_list.iter().map(|r| r.tweet_id.clone()).collect()
}

#[test]
fn three_records_with_short_history() {
    let mut s = Scheduler::new_with_limit(2);
    for id in ["1", "2", "3"] {
        feed(&mut s, id);
    }
    let mut deletes: Vec<String> = Vec::new();
    for id in ["1", "2", "3"] {
        let pb = s.advance_synthesis().expect("a synthesis should start");
        assert_eq!(pb.tweet_id, id);
        let sp = Some(speech(id));
        assert!(s.accepts_speech(&sp));
        s.handle_tts_result(sp);
        assert!(s.is_speech_ready());
        let out = s.handle_audio_ready();
        assert!(matches!(out.audio[0], AudioControl::PlayMulti(_)));
        for d in out.display {
            if let DisplayContrl::Delete(name, twid) = d {
                assert_eq!(name, "user");
                deletes.push(twid);
            }
        }
    }
    assert_eq!(deletes, vec!["1"]);
    assert_eq!(played_ids_user(&s), vec!["2", "3"]);
}

#[test]
fn jump_while_synthesizing_cancels_and_discards() {
    let mut s = Scheduler::new();
    for id in ["1", "2", "3"] {
        feed(&mut s, id);
    }
    let pb = s.advance_synthesis().expect("a synthesis should start");
    assert_eq!(pb.tweet_id, "1");
    assert!(matches!(s.tts_state, TTSState::Processing(_)));

    let out = s.handle_user_input(UserInput::Jump("3".to_string()));
    assert!(matches!(out.audio[0], AudioControl::Stop));
    assert!(matches!(s.tts_state, TTSState::Canceling(_)));
    assert_eq!(wait_ids_user(&s), vec!["3"]);
    assert_eq!(ready_ids_user(&s), Vec::<String>::new());
    assert_eq!(played_ids_user(&s), vec!["1", "2"]);

    // The late result for "1" arrives and is discarded: "1" stays played.
    let sp = Some(speech("1"));
    assert!(s.accepts_speech(&sp));
    s.handle_tts_result(sp);
    assert!(matches!(s.tts_state, TTSState::Waiting));
    assert_eq!(wait_ids_user(&s), vec!["3"]);
    assert_eq!(ready_ids_user(&s), Vec::<String>::new());
    assert_eq!(played_ids_user(&s), vec!["1", "2"]);
}

#[test]
fn speaker_change_invalidates_pending_speech() {
    let mut s = Scheduler::new();
    feed(&mut s, "1");
    feed(&mut s, "2");
    let pb = s.advance_synthesis().expect("a synthesis should start");
    assert_eq!(pb.tweet_id, "1");
    s.handle_tts_result(Some(speech("1")));
    let pb = s.advance_synthesis().expect("a synthesis should start");
    assert_eq!(pb.tweet_id, "2");

    let speaker = Speaker {
        addr: NetAddr::new(127, 0, 0, 1, 50021),
        engine: "VOICEVOX".to_string(),
        name: "Speaker".to_string(),
        style: "Normal".to_string(),
        speaker: 7,
    };
    let out = s.handle_user_input(UserInput::Speaker(speaker));
    assert!(out.audio.is_empty());
    assert_eq!(s.settings.speaker, 7);
    assert_eq!(s.settings.addr, NetAddr::new(127, 0, 0, 1, 50021));
    assert!(s.ctx_user.speech_cache.is_empty());
    assert_eq!(wait_ids_user(&s), vec!["1", "2"]);
    assert_eq!(ready_ids_user(&s), Vec::<String>::new());
    assert!(matches!(s.tts_state, TTSState::Canceling(_)));
}

#[test]
fn failed_synthesis_is_offered_again() {
    let mut s = Scheduler::new();
    feed(&mut s, "1");
    let pb = s.advance_synthesis().expect("a synthesis should start");
    assert_eq!(pb.tweet_id, "1");
    let none: Option<Speech> = None;
    assert!(s.accepts_speech(&none));
    s.handle_tts_result(none);
    assert!(matches!(s.tts_state, TTSState::Waiting));
    assert_eq!(wait_ids_user(&s), vec!["1"]);
    let pb = s.advance_synthesis().expect("the head should be retried");
    assert_eq!(pb.tweet_id, "1");
}

#[test]
fn pause_is_idempotent_and_reversible() {
    let mut s = Scheduler::new();
    let out = s.handle_user_input(UserInput::Paused(true));
    assert!(out.audio.is_empty() && out.display.is_empty());
    assert!(s.is_paused());
    let settings_once = s.settings;
    s.handle_user_input(UserInput::Paused(true));
    assert_eq!(s.settings, settings_once);
    s.handle_user_input(UserInput::Paused(false));
    assert!(!s.is_paused());
    feed(&mut s, "1");
    assert_eq!(wait_ids_user(&s), vec!["1"]);
}

#[test]
fn empty_jump_stops_audio_and_cancels() {
    let mut s = Scheduler::new();
    feed(&mut s, "1");
    let pb = s.advance_synthesis().expect("a synthesis should start");
    assert_eq!(pb.tweet_id, "1");
    let out = s.handle_user_input(UserInput::Jump("".to_string()));
    assert_eq!(out.audio.len(), 1);
    assert!(matches!(out.audio[0], AudioControl::Stop));
    assert!(out.display.is_empty());
    // The queues stay untouched; only the in-flight synthesis is marked
    // cancelled, so its late result is discarded.
    assert!(matches!(s.tts_state, TTSState::Canceling(_)));
    assert_eq!(wait_ids_user(&s), vec!["1"]);
    let sp = Some(speech("1"));
    assert!(s.accepts_speech(&sp));
    s.handle_tts_result(sp);
    assert!(matches!(s.tts_state, TTSState::Waiting));
    assert_eq!(wait_ids_user(&s), vec!["1"]);
    assert_eq!(ready_ids_user(&s), Vec::<String>::new());
    // The head is still offered for synthesis afterwards.
    let pb = s.advance_synthesis().expect("the head should be offered again");
    assert_eq!(pb.tweet_id, "1");
}

#[test]
fn new_search_query_flushes_search_context() {
    let mut s = Scheduler::new();
    // Establish a search timeline and fill it.
    let tl_a = Timeline::Search { query: "alpha".to_string() };
    s.handle_new_tweet(&tl_a, &rec("s1"));
    s.handle_new_tweet(&tl_a, &rec("s2"));
    assert_eq!(s.ctx_search.wait_list.len(), 2);

    // A record of a different query flushes the search context first.
    let tl_b = Timeline::Search { query: "beta".to_string() };
    let out = s.handle_new_tweet(&tl_b, &rec("s3"));
    assert_eq!(out.audio.len(), 1);
    assert!(matches!(out.audio[0], AudioControl::Stop));
    let deleted: Vec<String> = out
        .display
        .iter()
        .filter_map(|d| match d {
            DisplayContrl::Delete(_, twid) => Some(twid.clone()),
            _ => None,
        })
        .collect();
    assert_eq!(deleted, vec!["s1", "s2"]);
    let ids: Vec<String> = s.ctx_search.wait_list.iter().map(|r| r.tweet_id.clone()).collect();
    assert_eq!(ids, vec!["s3"]);
    assert_eq!(s.ctx_search.forcus_id, Some("s3".to_string()));
}

#[test]
fn view_change_stops_audio_and_scrolls_to_focus() {
    let mut s = Scheduler::new();
    feed(&mut s, "1");
    assert_eq!(s.ctx_user.forcus_id, Some("1".to_string()));

    let out = s.handle_user_input(
        UserInput::TimelineView(Timeline::Search { query: "alpha".to_string() }),
    );
    assert_eq!(out.audio.len(), 1);
    assert!(matches!(out.audio[0], AudioControl::Stop));
    assert!(out.display.is_empty(), "the empty search context has no focus");

    let out = s.handle_user_input(UserInput::TimelineView(Timeline::User));
    assert_eq!(out.audio.len(), 1);
    match &out.display[0] {
        DisplayContrl::Scroll(name, twid) => {
            assert_eq!(name, "user");
            assert_eq!(twid, "1");
        },
        other => panic!("expected a scroll command, got {:?}", other),
    }
}

#[test]
fn first_record_becomes_focus_and_scrolls() {
    let mut s = Scheduler::new();
    let out = s.handle_new_tweet(&Timeline::User, &rec("1"));
    assert!(out.audio.is_empty());
    assert_eq!(out.display.len(), 2);
    assert!(matches!(&out.display[0], DisplayContrl::Add(name, _) if name == "user"));
    assert!(
        matches!(&out.display[1], DisplayContrl::Scroll(name, twid) if name == "user" && twid == "1")
    );
    let out = s.handle_new_tweet(&Timeline::User, &rec("2"));
    assert_eq!(out.display.len(), 1, "an existing focus is kept");
}

#[test]
fn duplicate_ids_are_refused_at_the_gate() {
    let mut s = Scheduler::new();
    feed(&mut s, "1");
    let msg = rec("1");
    assert!(!s.may_accept_tweet(&Timeline::User, &msg));
    // The same id on the other timeline is a different queue and fine.
    let tl = Timeline::Search { query: "alpha".to_string() };
    assert!(s.may_accept_tweet(&tl, &msg));
}

#[test]
fn speech_rate_change_invalidates_pending_speech() {
    let mut s = Scheduler::new();
    feed(&mut s, "1");
    let pb = s.advance_synthesis().expect("a synthesis should start");
    assert_eq!(pb.speech_rate_milli, 1000);
    let out = s.handle_user_input(UserInput::SpeechRate(1500));
    assert!(out.audio.is_empty() && out.display.is_empty());
    assert_eq!(s.settings.speech_rate_milli, 1500);
    assert!(matches!(s.tts_state, TTSState::Canceling(_)));
    s.handle_tts_result(Some(speech("1")));
    let pb = s.advance_synthesis().expect("the head should be retried");
    assert_eq!(pb.tweet_id, "1");
    assert_eq!(pb.speech_rate_milli, 1500);
}
