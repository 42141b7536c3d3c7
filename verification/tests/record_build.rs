use tweet_reader::scheduler::into;
use tweet_reader::twitter_data::{Media, Tweet, User};

fn tweet(id: &str, author: &str) -> Tweet {
    Tweet {
        author_id: author.to_string(),
        created_at: "2023-01-01T00:00:00Z".to_string(),
        edit_history_tweet_ids: vec![id.to_string()],
        id: id.to_string(),
        text: "hello".to_string(),
    }
}

fn user(id: &str, name: &str) -> User {
    User {
        id: id.to_string(),
        name: name.to_string(),
        username: format!("@{}", name),
        profile_image_url: "http://img".to_string(),
    }
}

fn photo(key: &str, url: &str) -> Media {
    Media {
        media_key: key.to_string(),
        kind: "photo".to_string(),
        url: Some(url.to_string()),
        preview_image_url: None,
    }
}

fn video(key: &str, preview: &str) -> Media {
    Media {
        media_key: key.to_string(),
        kind: "video".to_string(),
        url: None,
        preview_image_url: Some(preview.to_string()),
    }
}

#[test]
fn builds_record_with_author_fields() {
    let users = vec![user("other", "Other"), user("a", "Alice")];
    let r = into(&tweet("1", "a"), &Vec::new(), &users, &Vec::new()).expect("record");
    assert_eq!(r.tweet_id, "1");
    assert_eq!(r.author_id, "a");
    assert_eq!(r.name, "Alice");
    assert_eq!(r.username, "@Alice");
    assert_eq!(r.text, "hello");
    assert!(r.attachments.is_empty());
}

#[test]
fn unknown_author_yields_nothing() {
    let users = vec![user("b", "Bob")];
    assert!(into(&tweet("1", "a"), &Vec::new(), &users, &Vec::new()).is_none());
}

#[test]
fn photo_contributes_its_url() {
    let users = vec![user("a", "Alice")];
    let medias = vec![photo("k1", "http://p1")];
    let keys = vec!["k1".to_string()];
    let r = into(&tweet("1", "a"), &keys, &users, &medias).expect("record");
    assert_eq!(r.attachments, vec![("photo".to_string(), "http://p1".to_string())]);
}

#[test]
fn video_contributes_its_preview() {
    let users = vec![user("a", "Alice")];
    let medias = vec![video("k1", "http://still")];
    let keys = vec!["k1".to_string()];
    let r = into(&tweet("1", "a"), &keys, &users, &medias).expect("record");
    assert_eq!(r.attachments, vec![("video".to_string(), "http://still".to_string())]);
}

#[test]
fn unknown_media_kind_is_skipped() {
    let users = vec![user("a", "Alice")];
    let medias = vec![
        Media {
            media_key: "k1".to_string(),
            kind: "audio".to_string(),
            url: Some("http://a".to_string()),
            preview_image_url: None,
        },
        photo("k2", "http://p2"),
    ];
    let keys = vec!["k1".to_string(), "k2".to_string()];
    let r = into(&tweet("1", "a"), &keys, &users, &medias).expect("record");
    assert_eq!(r.attachments, vec![("photo".to_string(), "http://p2".to_string())]);
}

#[test]
fn missing_media_key_yields_nothing() {
    let users = vec![user("a", "Alice")];
    let medias = vec![photo("k1", "http://p1")];
    let keys = vec!["k9".to_string()];
    assert!(into(&tweet("1", "a"), &keys, &users, &medias).is_none());
}

#[test]
fn photo_without_url_yields_nothing() {
    let users = vec![user("a", "Alice")];
    let medias = vec![Media {
        media_key: "k1".to_string(),
        kind: "photo".to_string(),
        url: None,
        preview_image_url: Some("http://still".to_string()),
    }];
    let keys = vec!["k1".to_string()];
    assert!(into(&tweet("1", "a"), &keys, &users, &medias).is_none());
}
