use std::collections::HashMap;

use vtuber_stats::aggregate::{Archive, Counts, StatData, StatResponse, UpstatData, UpstatResponse};
use vtuber_stats::credential::Database;
use vtuber_stats::error::{status_is_success, Error, Platform, Reply};
use vtuber_stats::platform::{
    bilibili_stat, bilibili_stat_requests, youtube_channels, youtube_channels_request,
    youtube_videos, youtube_videos_request, youtube_videos_snippet,
    youtube_videos_snippet_request, Listing, YOUTUBE_PAGE_SIZE,
};
use vtuber_stats::request::{
    build_url, fits, join_capped, pair, plan, url_or_invalid, Body, Config, Method, Request,
    MAX_REQUEST_BYTES,
};
use vtuber_stats::store::WriteOutcome;
use vtuber_stats::time::Timestamp;

fn config() -> Config {
    Config {
        project_id: String::from("demo-project"),
        web_api_key: String::from("web-key"),
        email: String::from("bot@example.net"),
        password: String::from("hunter2"),
        youtube_videos_key: String::from("yt-videos"),
        youtube_channels_key: String::from("yt-channels"),
    }
}

fn database() -> Database {
    Database {
        id_token: String::from("tok/en+1"),
        refresh_token: String::from("renew"),
        expires_at: Timestamp::new(0, 0),
    }
}

fn get(url: &str) -> Request {
    Request { method: Method::Get, url: String::from(url), body: Body::Empty }
}

fn counts(entries: &[(&str, u64)]) -> Counts {
    let mut counts = Counts::new();
    for (label, count) in entries {
        counts.insert(String::from(*label), *count);
    }
    counts
}

fn answered<T>(status: u16, body: T) -> Reply<T> {
    Reply::Answered { status, body: Some(body) }
}

#[test]
fn success_class_is_200_to_299() {
    assert!(!status_is_success(0));
    assert!(!status_is_success(199));
    assert!(status_is_success(200));
    assert!(status_is_success(204));
    assert!(status_is_success(299));
    assert!(!status_is_success(300));
    assert!(!status_is_success(404));
    assert!(!status_is_success(u16::MAX));
}

#[test]
fn reply_is_accepted_only_with_success_status_and_body() {
    assert_eq!(answered(200, 7).accept(Platform::Store), Ok(7));
    assert_eq!(
        answered(404, 7).accept(Platform::YouTube),
        Err(Error::Upstream { platform: Platform::YouTube, status: 404 })
    );
    assert_eq!(
        Reply::<i32>::Answered { status: 200, body: None }.accept(Platform::Bilibili),
        Err(Error::Upstream { platform: Platform::Bilibili, status: 200 })
    );
    assert_eq!(Reply::<i32>::Unreachable.accept(Platform::Identity), Err(Error::Transport));
}

#[test]
fn failure_of_a_reply_is_read_without_taking_it() {
    let good = answered(200, 7);
    assert_eq!(good.failure(Platform::Store), None);
    assert_eq!(good.accept(Platform::Store), Ok(7));
    assert_eq!(
        answered(404, 7).failure(Platform::YouTube),
        Some(Error::Upstream { platform: Platform::YouTube, status: 404 })
    );
    assert_eq!(
        Reply::<i32>::Answered { status: 200, body: None }.failure(Platform::Bilibili),
        Some(Error::Upstream { platform: Platform::Bilibili, status: 200 })
    );
    assert_eq!(Reply::<i32>::Unreachable.failure(Platform::Identity), Some(Error::Transport));
}

#[test]
fn reached_reply_is_kept_as_it_is() {
    assert_eq!(answered(500, 7).reached(), Ok(answered(500, 7)));
    assert_eq!(
        Reply::<i32>::Answered { status: 200, body: None }.reached(),
        Ok(Reply::Answered { status: 200, body: None })
    );
    assert_eq!(Reply::<i32>::Unreachable.reached(), Err(Error::Transport));
}

#[test]
fn url_is_the_base_with_the_encoded_query() {
    let query = vec![pair("lang", "rust"), pair("q", "a b&c")];
    assert_eq!(
        build_url("https://example.net?dont=clobberme", &query),
        Ok(String::from("https://example.net/?dont=clobberme&lang=rust&q=a+b%26c"))
    );
    assert_eq!(build_url("https://example.net/x", &Vec::new()), Ok(String::from("https://example.net/x?")));
}

#[test]
fn url_agrees_with_the_url_crate() {
    let bases = ["https://example.net", "http://h/p?x=1#frag", "HTTPS://Example.NET:443/a/../b", "exa mple", "/relative", ""];
    let query = vec![pair("k", "v w"), pair("", "é")];
    for base in bases {
        let expected = url::Url::parse_with_params(base, &query).map(String::from).map_err(|_| Error::InvalidUrl);
        assert_eq!(build_url(base, &query), expected, "{:?}", base);
    }
}

#[test]
fn text_that_is_no_absolute_url_is_refused() {
    assert_eq!(build_url("not a url", &Vec::new()), Err(Error::InvalidUrl));
    assert_eq!(build_url("//example.net/x", &Vec::new()), Err(Error::InvalidUrl));
    assert_eq!(
        plan(Method::Get, "https://exa mple.net/", &Vec::new(), Body::Empty),
        Err(Error::InvalidUrl)
    );
    let rejected = url::Url::parse("nothing").map(String::from);
    assert_eq!(url_or_invalid(rejected), Err(Error::InvalidUrl));
    assert_eq!(url_or_invalid(Ok(String::from("kept"))), Ok(String::from("kept")));
}

#[test]
fn request_longer_than_the_limit_is_refused() {
    let base = "https://example.net/";
    let room = MAX_REQUEST_BYTES - base.len() - 1;
    let fitting = vec![pair("k", "v".repeat(room).as_str())];
    assert!(fits(base, &fitting));
    assert!(build_url(base, &fitting).is_ok());
    let too_long = vec![pair("k", "v".repeat(room + 1).as_str())];
    assert!(!fits(base, &too_long));
    assert_eq!(build_url(base, &too_long), Err(Error::InvalidUrl));
    let long_base = "x".repeat(MAX_REQUEST_BYTES + 1);
    assert!(!fits(long_base.as_str(), &Vec::new()));
    // Bytes count, not characters.
    let wide = vec![pair("é".repeat(room / 2 + 1).as_str(), "é")];
    assert!(!fits(base, &wide));
    let narrow = vec![pair("e".repeat(room / 2 + 1).as_str(), "e")];
    assert!(fits(base, &narrow));
}

#[test]
fn ids_are_joined_up_to_the_cap() {
    let ids: Vec<String> = (0..4).map(|i| format!("id{}", i)).collect();
    assert_eq!(join_capped(&ids, ",", 50), "id0,id1,id2,id3");
    assert_eq!(join_capped(&ids, ",", 4), "id0,id1,id2,id3");
    assert_eq!(join_capped(&ids, ",", 3), "id0,id1,id2");
    assert_eq!(join_capped(&ids, "--", 2), "id0--id1");
    assert_eq!(join_capped(&ids, ",", 1), "id0");
    assert_eq!(join_capped(&ids, ",", 0), "");
    assert_eq!(join_capped(&Vec::new(), ",", 50), "");
}

#[test]
fn videos_request_carries_key_and_ids() {
    let ids = vec![String::from("abc"), String::from("d-f_g")];
    assert_eq!(
        youtube_videos_request(&config(), &ids),
        Ok(get(
            "https://www.googleapis.com/youtube/v3/videos?part=id%2CliveStreamingDetails&maxResults=50&key=yt-videos&id=abc%2Cd-f_g"
        ))
    );
    assert_eq!(
        youtube_videos_snippet_request(&config(), &ids),
        Ok(get(
            "https://www.googleapis.com/youtube/v3/videos?part=id%2CliveStreamingDetails%2Csnippet&maxResults=50&key=yt-videos&id=abc%2Cd-f_g"
        ))
    );
}

#[test]
fn channels_request_carries_key_and_ids() {
    let ids = vec![String::from("UC1"), String::from("UC2"), String::from("UC3")];
    assert_eq!(
        youtube_channels_request(&config(), &ids),
        Ok(get(
            "https://www.googleapis.com/youtube/v3/channels?part=statistics&key=yt-channels&id=UC1%2CUC2%2CUC3"
        ))
    );
}

#[test]
fn id_list_is_capped_at_fifty() {
    assert_eq!(YOUTUBE_PAGE_SIZE, 50);
    let ids: Vec<String> = (0..60).map(|i| format!("v{}", i)).collect();
    let first_fifty: Vec<String> = ids.iter().take(50).cloned().collect();
    let request = youtube_videos_request(&config(), &ids).expect("a valid address");
    assert_eq!(Ok(request.clone()), youtube_videos_request(&config(), &first_fifty));
    assert!(request.url.ends_with("%2Cv49"));
    assert!(!request.url.contains("v50"));
    assert_eq!(
        youtube_channels_request(&config(), &ids),
        youtube_channels_request(&config(), &first_fifty)
    );
}

#[test]
fn listing_gives_its_items_or_names_the_platform() {
    let listing = Listing { items: vec![String::from("a"), String::from("b")] };
    assert_eq!(youtube_videos(answered(200, listing)), Ok(vec![String::from("a"), String::from("b")]));
    let listing = Listing { items: vec![1u8, 2, 3] };
    assert_eq!(youtube_videos_snippet(answered(201, listing)), Ok(vec![1, 2, 3]));
    let listing = Listing { items: Vec::<u8>::new() };
    assert_eq!(youtube_channels(answered(200, listing)), Ok(Vec::new()));
    assert_eq!(
        youtube_channels(answered(403, Listing { items: vec![1u8] })),
        Err(Error::Upstream { platform: Platform::YouTube, status: 403 })
    );
    assert_eq!(
        youtube_videos(Reply::<Listing<u8>>::Answered { status: 200, body: None }),
        Err(Error::Upstream { platform: Platform::YouTube, status: 200 })
    );
    assert_eq!(youtube_videos(Reply::<Listing<u8>>::Unreachable), Err(Error::Transport));
}

#[test]
fn bilibili_requests_carry_the_user_id() {
    assert_eq!(
        bilibili_stat_requests(349_991_143),
        Ok((
            get("https://api.bilibili.com/x/relation/stat?vmid=349991143"),
            get("https://api.bilibili.com/x/space/upstat?mid=349991143"),
        ))
    );
    assert_eq!(
        bilibili_stat_requests(0),
        Ok((
            get("https://api.bilibili.com/x/relation/stat?vmid=0"),
            get("https://api.bilibili.com/x/space/upstat?mid=0"),
        ))
    );
}

#[test]
fn bilibili_stat_pairs_follower_and_view_counts() {
    let stat = StatResponse { data: StatData { follower: 120 } };
    let upstat = UpstatResponse { data: UpstatData { archive: Archive { view: 34_000 } } };
    assert_eq!(bilibili_stat(answered(200, stat), answered(200, upstat)), Ok((120, 34_000)));
}

#[test]
fn bilibili_stat_fails_with_either_reply() {
    let stat = StatResponse { data: StatData { follower: 120 } };
    let upstat = UpstatResponse { data: UpstatData { archive: Archive { view: 34_000 } } };
    let broken = Error::Upstream { platform: Platform::Bilibili, status: 412 };
    assert_eq!(bilibili_stat(answered(412, stat), answered(200, upstat)), Err(broken));
    assert_eq!(bilibili_stat(answered(200, stat), answered(412, upstat)), Err(broken));
    assert_eq!(
        bilibili_stat(answered(200, stat), Reply::Answered { status: 200, body: None }),
        Err(Error::Upstream { platform: Platform::Bilibili, status: 200 })
    );
    // The first payload that is not the expected one decides.
    assert_eq!(
        bilibili_stat(answered(500, stat), answered(412, upstat)),
        Err(Error::Upstream { platform: Platform::Bilibili, status: 500 })
    );
    // A request without response comes before any payload.
    assert_eq!(bilibili_stat(answered(500, stat), Reply::Unreachable), Err(Error::Transport));
    assert_eq!(bilibili_stat(Reply::Unreachable, answered(500, upstat)), Err(Error::Transport));
}

#[test]
fn store_read_carries_the_token_as_query_parameter() {
    assert_eq!(
        database().read(&config(), "/some/doc.json"),
        Ok(get("https://demo-project.firebaseio.com/some/doc.json?auth=tok%2Fen%2B1"))
    );
    assert_eq!(
        database().vtuber_stats_timestamps_request(&config()),
        Ok(get("https://demo-project.firebaseio.com/vtuberStats/_timestamps.json?auth=tok%2Fen%2B1"))
    );
    assert_eq!(
        database().current_streams_request(&config()),
        Ok(get("https://demo-project.firebaseio.com/streams/_current.json?auth=tok%2Fen%2B1"))
    );
}

#[test]
fn store_write_is_a_silent_patch_with_the_payload() {
    let payload = String::from("{\"a\":{\"b\":1}}");
    let expected = Request {
        method: Method::Patch,
        url: String::from("https://demo-project.firebaseio.com/.json?format=silent&auth=tok%2Fen%2B1"),
        body: Body::Raw(payload.clone()),
    };
    assert_eq!(database().patch_values_request(&config(), payload.clone()), Ok(expected.clone()));
    assert_eq!(database().write(&config(), "/.json", payload.clone()), Ok(expected));
    assert_eq!(
        database().write(&config(), "/streams.json", payload.clone()).map(|r| r.url),
        Ok(String::from("https://demo-project.firebaseio.com/streams.json?format=silent&auth=tok%2Fen%2B1"))
    );
}

#[test]
fn store_request_for_an_impossible_host_is_refused() {
    let mut config = config();
    config.project_id = String::from("demo project");
    assert_eq!(database().read(&config, "/x.json"), Err(Error::InvalidUrl));
    assert_eq!(database().patch_values_request(&config, String::from("{}")), Err(Error::InvalidUrl));
    assert_eq!(
        database().stream_stats_requests(&config, &vec![String::from("a")]),
        Err(Error::InvalidUrl)
    );
    assert_eq!(
        database().vtuber_stats_at_requests(&config, &vec![String::from("a")], 1),
        Err(Error::InvalidUrl)
    );
    assert_eq!(database().stream_stats_requests(&config, &Vec::new()), Ok(Vec::new()));
}

#[test]
fn write_back_never_fails() {
    assert_eq!(Database::patch_values(&answered(200, ())), WriteOutcome::Updated);
    assert_eq!(Database::patch_values(&answered(204, ())), WriteOutcome::Updated);
    assert_eq!(
        Database::patch_values(&Reply::<()>::Answered { status: 204, body: None }),
        WriteOutcome::Updated
    );
    assert_eq!(Database::patch_values(&answered(401, ())), WriteOutcome::Failed);
    assert_eq!(Database::patch_values(&answered(500, ())), WriteOutcome::Failed);
    assert_eq!(Database::patch_values(&Reply::<()>::Unreachable), WriteOutcome::Failed);
}

#[test]
fn timestamps_reply_becomes_the_sorted_index() {
    let mut raw: HashMap<i64, bool> = HashMap::new();
    raw.insert(300, true);
    raw.insert(100, false);
    raw.insert(200, true);
    assert_eq!(Database::vtuber_stats_timestamps(answered(200, raw.clone())), Ok(vec![100, 200, 300]));
    assert_eq!(
        Database::vtuber_stats_timestamps(answered(401, raw)),
        Err(Error::Upstream { platform: Platform::Store, status: 401 })
    );
    assert_eq!(Database::vtuber_stats_timestamps(Reply::Unreachable), Err(Error::Transport));
}

#[test]
fn current_streams_reply_is_passed_on() {
    let mut current: HashMap<String, bool> = HashMap::new();
    current.insert(String::from("video-1"), true);
    assert_eq!(Database::current_streams(answered(200, current.clone())), Ok(current));
    assert_eq!(
        Database::current_streams(Reply::Answered { status: 200, body: None }),
        Err(Error::Upstream { platform: Platform::Store, status: 200 })
    );
}

#[test]
fn stream_requests_read_one_document_per_stream() {
    let ids = vec![String::from("abc"), String::from("x y")];
    assert_eq!(
        database().stream_stats_requests(&config(), &ids),
        Ok(vec![
            get("https://demo-project.firebaseio.com/streamStats/abc.json?auth=tok%2Fen%2B1"),
            get("https://demo-project.firebaseio.com/streamStats/x%20y.json?auth=tok%2Fen%2B1"),
        ])
    );
}

#[test]
fn stream_stats_summarise_each_stream_that_was_read() {
    let ids = vec![String::from("s0"), String::from("s1"), String::from("s2"), String::from("s3")];
    let replies = vec![
        answered(200, counts(&[("a", 5), ("b", 15), ("c", 10)])),
        Reply::Answered { status: 200, body: None },
        answered(500, counts(&[("a", 1)])),
        answered(200, counts(&[("t", 8), ("u", 9)])),
    ];
    assert_eq!(
        Database::stream_stats(&ids, replies),
        Ok(vec![(String::from("s0"), 10, 15), (String::from("s3"), 8, 9)])
    );
}

#[test]
fn stream_stats_fail_on_a_stream_without_observations() {
    let ids = vec![String::from("s0"), String::from("s1")];
    let replies = vec![answered(200, counts(&[("a", 5)])), answered(200, Counts::new())];
    assert_eq!(Database::stream_stats(&ids, replies), Err(Error::EmptyInput));
    // An empty payload that was not accepted is only a failed read.
    let replies = vec![answered(200, counts(&[("a", 5)])), answered(404, Counts::new())];
    assert_eq!(Database::stream_stats(&ids, replies), Ok(vec![(String::from("s0"), 5, 5)]));
}

#[test]
fn stream_stats_leave_out_a_stream_that_was_not_reached() {
    let ids = vec![String::from("s0"), String::from("s1"), String::from("s2")];
    let replies = vec![Reply::Unreachable, answered(200, counts(&[("a", 4), ("b", 7)])), Reply::Unreachable];
    assert_eq!(Database::stream_stats(&ids, replies), Ok(vec![(String::from("s1"), 5, 7)]));
    let replies: Vec<Reply<Counts>> = vec![Reply::Unreachable, Reply::Unreachable, Reply::Unreachable];
    assert_eq!(Database::stream_stats(&ids, replies), Ok(Vec::new()));
}

#[test]
fn stream_stats_pair_ids_and_replies_by_position() {
    let ids = vec![String::from("s0")];
    let replies = vec![answered(200, counts(&[("a", 2)])), answered(200, Counts::new())];
    assert_eq!(Database::stream_stats(&ids, replies), Ok(vec![(String::from("s0"), 2, 2)]));
    let ids = vec![String::from("s0"), String::from("s1")];
    let replies = vec![answered(200, counts(&[("a", 2)]))];
    assert_eq!(Database::stream_stats(&ids, replies), Ok(vec![(String::from("s0"), 2, 2)]));
    assert_eq!(Database::stream_stats(&Vec::new(), Vec::new()), Ok(Vec::new()));
}

#[test]
fn snapshot_requests_read_one_document_per_channel() {
    let names = vec![String::from("aqua"), String::from("shion")];
    assert_eq!(
        database().vtuber_stats_at_requests(&config(), &names, 1_590_000_000),
        Ok(vec![
            get("https://demo-project.firebaseio.com/vtuberStats/aqua/1590000000.json?auth=tok%2Fen%2B1"),
            get("https://demo-project.firebaseio.com/vtuberStats/shion/1590000000.json?auth=tok%2Fen%2B1"),
        ])
    );
    assert_eq!(
        database().vtuber_stats_at_requests(&config(), &vec![String::from("aqua")], -5).map(|r| r[0].url.clone()),
        Ok(String::from("https://demo-project.firebaseio.com/vtuberStats/aqua/-5.json?auth=tok%2Fen%2B1"))
    );
}

#[test]
fn snapshots_are_all_or_nothing() {
    let replies = vec![answered(200, [1, 2, 3, 4]), answered(200, [5, 6, 7, 8])];
    assert_eq!(Database::vtuber_stats_at(replies), Ok(vec![[1, 2, 3, 4], [5, 6, 7, 8]]));
    let replies = vec![
        answered(200, [1, 2, 3, 4]),
        Reply::Answered { status: 200, body: None },
        answered(503, [5, 6, 7, 8]),
    ];
    assert_eq!(
        Database::vtuber_stats_at(replies),
        Err(Error::Upstream { platform: Platform::Store, status: 200 })
    );
    let replies = vec![answered(503, [1, 2, 3, 4]), answered(200, [5, 6, 7, 8]), Reply::Unreachable];
    assert_eq!(Database::vtuber_stats_at(replies), Err(Error::Transport));
    assert_eq!(Database::vtuber_stats_at(Vec::new()), Ok(Vec::new()));
}
