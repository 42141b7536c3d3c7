use tweet_reader::twitter_agent::{SearchTimelineContext, UserTimelineContext};
use tweet_reader::twitter_data::{Includes, Meta, Tweet, TweetsResponse, User};

fn tweet(id: &str) -> Tweet {
    Tweet {
        author_id: "a".to_string(),
        created_at: "2023-01-01T00:00:00Z".to_string(),
        edit_history_tweet_ids: vec![id.to_string()],
        id: id.to_string(),
        text: format!("text {}", id),
    }
}

fn response(ids_newest_first: &[&str]) -> TweetsResponse {
    TweetsResponse {
        data: Some(ids_newest_first.iter().map(|id| tweet(id)).collect()),
        includes: Some(Includes {
            users: vec![User {
                id: "a".to_string(),
                name: "Alice".to_string(),
                username: "@alice".to_string(),
                profile_image_url: "http://img".to_string(),
            }],
        }),
        meta: Meta {
            newest_id: ids_newest_first.first().map(|s| s.to_string()),
            next_token: None,
            oldest_id: ids_newest_first.last().map(|s| s.to_string()),
            result_count: ids_newest_first.len() as u32,
        },
    }
}

#[test]
fn absorbs_records_oldest_first_and_tracks_newest() {
    let mut ctx = UserTimelineContext::new();
    let records = ctx.absorb_response(&response(&["3", "2", "1"])).expect("records");
    let ids: Vec<String> = records.iter().map(|r| r.tweet_id.clone()).collect();
    assert_eq!(ids, vec!["1", "2", "3"]);
    assert_eq!(ctx.since_id_opt, Some("3".to_string()));
}

#[test]
fn empty_result_set_changes_nothing() {
    let mut ctx = UserTimelineContext::new();
    ctx.since_id_opt = Some("5".to_string());
    let resp = TweetsResponse {
        data: None,
        includes: None,
        meta: Meta { newest_id: None, next_token: None, oldest_id: None, result_count: 0 },
    };
    let records = ctx.absorb_response(&resp).expect("an empty result set is fine");
    assert!(records.is_empty());
    assert_eq!(ctx.since_id_opt, Some("5".to_string()));
}

#[test]
fn malformed_response_is_a_transient_error() {
    let mut ctx = UserTimelineContext::new();
    let mut resp = response(&["1"]);
    resp.includes = None;
    assert!(ctx.absorb_response(&resp).is_none());
    assert_eq!(ctx.since_id_opt, None);
}

#[test]
fn unknown_author_is_a_transient_error() {
    let mut ctx = SearchTimelineContext::new();
    let mut resp = response(&["1"]);
    if let Some(inc) = &mut resp.includes {
        inc.users.clear();
    }
    assert!(ctx.absorb_response(&resp).is_none());
    assert_eq!(ctx.since_id_opt, None);
}

#[test]
fn retarget_resets_progress_only_on_a_new_query() {
    let mut ctx = SearchTimelineContext::new();
    ctx.since_id_opt = Some("5".to_string());
    let q = ctx.query_opt.clone().unwrap();
    ctx.retarget(&q);
    assert_eq!(ctx.since_id_opt, Some("5".to_string()));

    ctx.retarget(&"other".to_string());
    assert_eq!(ctx.query_opt, Some("other".to_string()));
    assert_eq!(ctx.since_id_opt, None);
}
