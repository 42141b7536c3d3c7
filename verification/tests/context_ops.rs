use tweet_reader::scheduler::{remove, Context, Record};
use tweet_reader::voicegen_agent::Speech;

fn rec(id: &str) -> Record {
    Record {
        tweet_id: id.to_string(),
        author_id: "a".to_string(),
        created_at: "2023-01-01T00:00:00Z".to_string(),
        text: format!("text {}", id),
        name: "Name".to_string(),
        username: "user".to_string(),
        profile_image_url: "http://img".to_string(),
        attachments: Vec::new(),
    }
}

fn speech(id: &str) -> Speech {
    Speech { tweet_id: id.to_string(), text: vec![1, 2, 3], name: vec![4, 5] }
}

fn wait_ids(c: &Context) -> Vec<String> {
    c.wait_list.iter().map(|r| r.tweet_id.clone()).collect()
}

fn ready_ids(c: &Context) -> Vec<String> {
    c.ready_list.iter().map(|r| r.tweet_id.clone()).collect()
}

fn played_ids(c: &Context) -> Vec<String> {
    c.played_list.iter().map(|r| r.tweet_id.clone()).collect()
}

fn cache_ids(c: &Context) -> Vec<String> {
    c.speech_cache.iter().map(|s| s.tweet_id.clone()).collect()
}

#[test]
fn enqueue_synthesize_play() {
    let mut c = Context::new("user".to_string());
    c.add_new_tweet(&rec("1"));
    c.add_new_tweet(&rec("2"));
    assert_eq!(wait_ids(&c), vec!["1", "2"]);
    assert!(!c.is_speech_ready());

    let head = c.fetch_for_tts();
    assert_eq!(head.tweet_id, "1");
    assert_eq!(wait_ids(&c), vec!["1", "2"]);

    c.add_tss_result(Some(speech("1")));
    assert_eq!(wait_ids(&c), vec!["2"]);
    assert_eq!(ready_ids(&c), vec!["1"]);
    assert_eq!(cache_ids(&c), vec!["1"]);
    assert!(c.is_speech_ready());

    let (s, overflow) = c.fetch_for_playback();
    assert_eq!(s.tweet_id, "1");
    assert_eq!(s.text, vec![1, 2, 3]);
    assert!(overflow.is_none());
    assert_eq!(ready_ids(&c), Vec::<String>::new());
    assert_eq!(cache_ids(&c), Vec::<String>::new());
    assert_eq!(played_ids(&c), vec!["1"]);
}

#[test]
fn synthesis_failure_keeps_head() {
    let mut c = Context::new("user".to_string());
    c.add_new_tweet(&rec("1"));
    c.add_tss_result(None);
    assert_eq!(wait_ids(&c), vec!["1"]);
    assert_eq!(ready_ids(&c), Vec::<String>::new());
    assert_eq!(cache_ids(&c), Vec::<String>::new());
    assert_eq!(c.fetch_for_tts().tweet_id, "1");
}

#[test]
fn playback_evicts_oldest_beyond_limit() {
    let mut c = Context::new_with_limit("user".to_string(), 2);
    let mut evicted: Vec<String> = Vec::new();
    for id in ["1", "2", "3"] {
        c.add_new_tweet(&rec(id));
    }
    for id in ["1", "2", "3"] {
        c.add_tss_result(Some(speech(id)));
        let (s, overflow) = c.fetch_for_playback();
        assert_eq!(s.tweet_id, id);
        if let Some(e) = overflow {
            evicted.push(e);
        }
        assert!(c.played_list.len() <= 2);
    }
    assert_eq!(evicted, vec!["1"]);
    assert_eq!(played_ids(&c), vec!["2", "3"]);
}

#[test]
fn jump_into_wait_collapses_queues() {
    let mut c = Context::new("user".to_string());
    for id in ["1", "2", "3"] {
        c.add_new_tweet(&rec(id));
    }
    let dropped = c.jump_to_twid(&"3".to_string());
    assert_eq!(dropped, Vec::<String>::new());
    assert_eq!(wait_ids(&c), vec!["3"]);
    assert_eq!(ready_ids(&c), Vec::<String>::new());
    assert_eq!(cache_ids(&c), Vec::<String>::new());
    assert_eq!(played_ids(&c), vec!["1", "2"]);
}

#[test]
fn jump_into_ready_drops_earlier_cache() {
    let mut c = Context::new("user".to_string());
    for id in ["1", "2", "3"] {
        c.add_new_tweet(&rec(id));
        c.add_tss_result(Some(speech(id)));
    }
    let dropped = c.jump_to_twid(&"2".to_string());
    assert_eq!(dropped, Vec::<String>::new());
    assert_eq!(wait_ids(&c), Vec::<String>::new());
    assert_eq!(ready_ids(&c), vec!["2", "3"]);
    assert_eq!(cache_ids(&c), vec!["2", "3"]);
    assert_eq!(played_ids(&c), vec!["1"]);
}

#[test]
fn jump_to_unknown_id_changes_nothing() {
    let mut c = Context::new("user".to_string());
    c.add_new_tweet(&rec("1"));
    c.add_tss_result(Some(speech("1")));
    c.add_new_tweet(&rec("2"));
    let dropped = c.jump_to_twid(&"9".to_string());
    assert_eq!(dropped, Vec::<String>::new());
    assert_eq!(wait_ids(&c), vec!["2"]);
    assert_eq!(ready_ids(&c), vec!["1"]);
    assert_eq!(cache_ids(&c), vec!["1"]);
}

#[test]
fn jump_trims_history_below_limit() {
    let mut c = Context::new_with_limit("user".to_string(), 2);
    for id in ["1", "2", "3", "4"] {
        c.add_new_tweet(&rec(id));
    }
    // Jumping to "4" moves "1", "2", "3" toward the history, which holds
    // at most one record after the trim leaves room for the target.
    let dropped = c.jump_to_twid(&"4".to_string());
    assert_eq!(dropped, vec!["1", "2"]);
    assert_eq!(played_ids(&c), vec!["3"]);
    assert_eq!(wait_ids(&c), vec!["4"]);
}

#[test]
fn remove_cache_merges_ready_before_wait() {
    let mut c = Context::new("user".to_string());
    c.add_new_tweet(&rec("1"));
    c.add_tss_result(Some(speech("1")));
    c.add_new_tweet(&rec("2"));
    c.remove_cache();
    assert_eq!(wait_ids(&c), vec!["1", "2"]);
    assert_eq!(ready_ids(&c), Vec::<String>::new());
    assert_eq!(cache_ids(&c), Vec::<String>::new());
}

#[test]
fn remove_cache_without_ready_is_noop() {
    let mut c = Context::new("user".to_string());
    c.add_new_tweet(&rec("1"));
    c.remove_cache();
    assert_eq!(wait_ids(&c), vec!["1"]);
}

#[test]
fn drop_all_returns_every_id_in_order() {
    let mut c = Context::new("user".to_string());
    for id in ["1", "2", "3"] {
        c.add_new_tweet(&rec(id));
    }
    c.add_tss_result(Some(speech("1")));
    let dropped = c.drop_all();
    assert_eq!(dropped, vec!["2", "3", "1"]);
    assert!(c.wait_list.is_empty());
    assert!(c.ready_list.is_empty());
    assert!(c.played_list.is_empty());
    assert!(c.speech_cache.is_empty());
}

#[test]
fn contains_id_sees_every_queue() {
    let mut c = Context::new("user".to_string());
    c.add_new_tweet(&rec("1"));
    c.add_tss_result(Some(speech("1")));
    c.add_new_tweet(&rec("2"));
    assert!(c.contains_id(&"1".to_string()));
    assert!(c.contains_id(&"2".to_string()));
    assert!(!c.contains_id(&"3".to_string()));
}

#[test]
fn default_history_holds_exactly_its_bound() {
    let mut c = Context::new("user".to_string());
    let mut evicted: Vec<String> = Vec::new();
    for i in 0..1025u32 {
        c.add_new_tweet(&rec(&i.to_string()));
        c.add_tss_result(Some(speech(&i.to_string())));
        let (_, overflow) = c.fetch_for_playback();
        if let Some(e) = overflow {
            evicted.push(e);
        }
    }
    assert_eq!(c.played_list.len(), 1024);
    assert_eq!(evicted, vec!["0"]);
    assert_eq!(c.played_list[0].tweet_id, "1");
}

#[test]
fn remove_takes_element_at_index() {
    let mut v = vec![10u32, 20, 30];
    let taken = remove(&mut v, 1);
    assert_eq!(taken, 20);
    assert_eq!(v, vec![10, 30]);
}
