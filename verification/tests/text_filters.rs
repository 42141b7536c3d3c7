use tweet_reader::voicegen_agent::{into, spoken_name, spoken_text};
use tweet_reader::voicegen_data::NetAddr;
use tweet_reader::voicegen_filter::{replace_retweet, replace_url};
use tweet_reader::voicegen_observer::Speaker;
use tweet_reader::scheduler::Record;
use tweet_reader::voicegen_data::{Speaker as EngineSpeaker, Style};

#[test]
fn retweet_header_collapses() {
    assert_eq!(replace_retweet("RT someone: hello"), "RT hello");
    assert_eq!(replace_retweet("no header"), "no header");
    assert_eq!(replace_retweet(""), "");
}

#[test]
fn urls_become_a_spoken_phrase() {
    assert_eq!(
        replace_url("see https://example.com/a?b=c now"),
        "see ユーアールエル略 now"
    );
    assert_eq!(replace_url("plain"), "plain");
}

#[test]
fn spoken_name_reads_as_hiragana() {
    assert_eq!(spoken_name("ka"), "か");
    assert_eq!(spoken_name(""), "");
}

#[test]
fn spoken_text_filters_then_reads() {
    assert_eq!(spoken_text("ka"), "か");
    assert_eq!(spoken_text(""), "");
}

#[test]
fn playbook_carries_record_text_and_settings() {
    let record = Record {
        tweet_id: "1".to_string(),
        author_id: "a".to_string(),
        created_at: "2023-01-01T00:00:00Z".to_string(),
        text: "hello".to_string(),
        name: "Alice".to_string(),
        username: "@alice".to_string(),
        profile_image_url: "http://img".to_string(),
        attachments: Vec::new(),
    };
    let pb = into(record, NetAddr::new(127, 0, 0, 1, 50031), 3, 1200);
    assert_eq!(pb.tweet_id, "1");
    assert_eq!(pb.text, "hello");
    assert_eq!(pb.name, "Alice");
    assert_eq!(pb.speaker, 3);
    assert_eq!(pb.speech_rate_milli, 1200);
}

#[test]
fn speakers_flatten_one_entry_per_style() {
    let engine_speaker = EngineSpeaker {
        name: "Metan".to_string(),
        speaker_uuid: "uuid-1".to_string(),
        styles: vec![
            Style { name: "Normal".to_string(), id: 2 },
            Style { name: "Sweet".to_string(), id: 0 },
        ],
        version: "0.14".to_string(),
    };
    let addr = NetAddr::new(127, 0, 0, 1, 50021);
    let v: Vec<Speaker> = Speaker::vec_from("VOICEVOX", addr, engine_speaker);
    assert_eq!(v.len(), 2);
    assert_eq!(v[0].name, "Metan");
    assert_eq!(v[0].style, "Normal");
    assert_eq!(v[0].speaker, 2);
    assert_eq!(v[1].style, "Sweet");
    assert_eq!(v[1].speaker, 0);
    assert_eq!(v[1].addr, addr);
    assert_eq!(v[1].engine, "VOICEVOX");
}
