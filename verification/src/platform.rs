//! The two upstream platforms: for each statistics endpoint, the request that
//! reads it and what its reply amounts to.

use vstd::prelude::*;

use crate::aggregate::{stats_pair, StatResponse, UpstatResponse};
use crate::decimal::{digits_of, render_u64};
use crate::error::{Error, Platform, Reply};
use crate::request::{
    capped, join_capped, joined, pair, plan, planned, query_view, texts, Body, BodyModel, Config,
    Method, Request, RequestModel,
};

verus! {

/// The most ids that the video platform answers for in one request.
pub const YOUTUBE_PAGE_SIZE: usize = 50;

/// The items of a decoded listing, of whatever shape the caller decodes.
#[derive(Debug, PartialEq, Eq)]
pub struct Listing<T> {
    pub items: Vec<T>,
}

/// The id parameter of a lookup: the first fifty ids, separated by commas.
pub open spec fn id_list(ids: Seq<Seq<char>>) -> Seq<char> {
    joined(capped(ids, YOUTUBE_PAGE_SIZE as int), ","@)
}

/// The lookup of videos by id, with their live streaming details.
pub open spec fn videos_plan(key: Seq<char>, ids: Seq<Seq<char>>) -> Option<RequestModel> {
    planned(
        Method::Get,
        "https://www.googleapis.com/youtube/v3/videos"@,
        seq![
            ("part"@, "id,liveStreamingDetails"@),
            ("maxResults"@, "50"@),
            ("key"@, key),
            ("id"@, id_list(ids)),
        ],
        BodyModel::Empty,
    )
}

/// The lookup of videos by id, with their live streaming details and their
/// snippets.
pub open spec fn videos_snippet_plan(key: Seq<char>, ids: Seq<Seq<char>>) -> Option<RequestModel> {
    planned(
        Method::Get,
        "https://www.googleapis.com/youtube/v3/videos"@,
        seq![
            ("part"@, "id,liveStreamingDetails,snippet"@),
            ("maxResults"@, "50"@),
            ("key"@, key),
            ("id"@, id_list(ids)),
        ],
        BodyModel::Empty,
    )
}

/// The lookup of channels by id, with their statistics.
pub open spec fn channels_plan(key: Seq<char>, ids: Seq<Seq<char>>) -> Option<RequestModel> {
    planned(
        Method::Get,
        "https://www.googleapis.com/youtube/v3/channels"@,
        seq![("part"@, "statistics"@), ("key"@, key), ("id"@, id_list(ids))],
        BodyModel::Empty,
    )
}

/// The read of a user's follower count.
pub open spec fn relation_plan(user: nat) -> Option<RequestModel> {
    planned(
        Method::Get,
        "https://api.bilibili.com/x/relation/stat"@,
        seq![("vmid"@, digits_of(user))],
        BodyModel::Empty,
    )
}

/// The read of a user's cumulative view count.
pub open spec fn upstat_plan(user: nat) -> Option<RequestModel> {
    planned(
        Method::Get,
        "https://api.bilibili.com/x/space/upstat"@,
        seq![("mid"@, digits_of(user))],
        BodyModel::Empty,
    )
}

/// The items of a listing that `platform` sent.
pub open spec fn listed<T>(reply: Reply<Listing<T>>, platform: Platform) -> Result<Vec<T>, Error> {
    match reply.outcome(platform) {
        Ok(listing) => Ok(listing.items),
        Err(error) => Err(error),
    }
}

/// The items of a listing that `platform` sent.
fn items_of<T>(reply: Reply<Listing<T>>, platform: Platform) -> (result: Result<Vec<T>, Error>)
    ensures
        result == listed(reply, platform),
{
    match reply.accept(platform) {
        Ok(listing) => Ok(listing.items),
        Err(error) => Err(error),
    }
}

/// The request that looks up the videos `ids`, at most fifty of them, with
/// their live streaming details.
pub fn youtube_videos_request(config: &Config, ids: &Vec<String>) -> (result: Result<
    Request,
    Error,
>)
    ensures
        match videos_plan(config.youtube_videos_key@, texts(ids@)) {
            Some(model) => result matches Ok(request) && request@ == model,
            None => result == Err::<Request, Error>(Error::InvalidUrl),
        },
{
    let id = join_capped(ids, ",", YOUTUBE_PAGE_SIZE);
    let mut query: Vec<(String, String)> = Vec::new();
    query.push(pair("part", "id,liveStreamingDetails"));
    query.push(pair("maxResults", "50"));
    query.push(pair("key", config.youtube_videos_key.as_str()));
    query.push(pair("id", id.as_str()));
    assert(query_view(query@) =~= seq![
        ("part"@, "id,liveStreamingDetails"@),
        ("maxResults"@, "50"@),
        ("key"@, config.youtube_videos_key@),
        ("id"@, id_list(texts(ids@))),
    ]);
    plan(Method::Get, "https://www.googleapis.com/youtube/v3/videos", &query, Body::Empty)
}

/// The videos, from the reply to [`youtube_videos_request`].
pub fn youtube_videos<T>(reply: Reply<Listing<T>>) -> (result: Result<Vec<T>, Error>)
    ensures
        result == listed(reply, Platform::YouTube),
{
    items_of(reply, Platform::YouTube)
}

/// The request that looks up the videos `ids`, at most fifty of them, with
/// their live streaming details and their snippets.
pub fn youtube_videos_snippet_request(config: &Config, ids: &Vec<String>) -> (result: Result<
    Request,
    Error,
>)
    ensures
        match videos_snippet_plan(config.youtube_videos_key@, texts(ids@)) {
            Some(model) => result matches Ok(request) && request@ == model,
            None => result == Err::<Request, Error>(Error::InvalidUrl),
        },
{
    let id = join_capped(ids, ",", YOUTUBE_PAGE_SIZE);
    let mut query: Vec<(String, String)> = Vec::new();
    query.push(pair("part", "id,liveStreamingDetails,snippet"));
    query.push(pair("maxResults", "50"));
    query.push(pair("key", config.youtube_videos_key.as_str()));
    query.push(pair("id", id.as_str()));
    assert(query_view(query@) =~= seq![
        ("part"@, "id,liveStreamingDetails,snippet"@),
        ("maxResults"@, "50"@),
        ("key"@, config.youtube_videos_key@),
        ("id"@, id_list(texts(ids@))),
    ]);
    plan(Method::Get, "https://www.googleapis.com/youtube/v3/videos", &query, Body::Empty)
}

/// The videos with their snippets, from the reply to
/// [`youtube_videos_snippet_request`].
pub fn youtube_videos_snippet<T>(reply: Reply<Listing<T>>) -> (result: Result<Vec<T>, Error>)
    ensures
        result == listed(reply, Platform::YouTube),
{
    items_of(reply, Platform::YouTube)
}

/// The request that looks up the channels `ids`, at most fifty of them, with
/// their statistics.
pub fn youtube_channels_request(config: &Config, ids: &Vec<String>) -> (result: Result<
    Request,
    Error,
>)
    ensures
        match channels_plan(config.youtube_channels_key@, texts(ids@)) {
            Some(model) => result matches Ok(request) && request@ == model,
            None => result == Err::<Request, Error>(Error::InvalidUrl),
        },
{
    let id = join_capped(ids, ",", YOUTUBE_PAGE_SIZE);
    let mut query: Vec<(String, String)> = Vec::new();
    query.push(pair("part", "statistics"));
    query.push(pair("key", config.youtube_channels_key.as_str()));
    query.push(pair("id", id.as_str()));
    assert(query_view(query@) =~= seq![
        ("part"@, "statistics"@),
        ("key"@, config.youtube_channels_key@),
        ("id"@, id_list(texts(ids@))),
    ]);
    plan(Method::Get, "https://www.googleapis.com/youtube/v3/channels", &query, Body::Empty)
}

/// The channels, from the reply to [`youtube_channels_request`].
pub fn youtube_channels<T>(reply: Reply<Listing<T>>) -> (result: Result<Vec<T>, Error>)
    ensures
        result == listed(reply, Platform::YouTube),
{
    items_of(reply, Platform::YouTube)
}

/// The two requests that read the follower count and the cumulative view
/// count of the user `id`, in that order.
pub fn bilibili_stat_requests(id: usize) -> (result: Result<(Request, Request), Error>)
    ensures
        match (relation_plan(id as nat), upstat_plan(id as nat)) {
            (Some(relation), Some(upstat)) => result matches Ok(requests) && requests.0@
                == relation && requests.1@ == upstat,
            _ => result == Err::<(Request, Request), Error>(Error::InvalidUrl),
        },
{
    let user = render_u64(id as u64);
    let mut relation_query: Vec<(String, String)> = Vec::new();
    relation_query.push(pair("vmid", user.as_str()));
    assert(query_view(relation_query@) =~= seq![("vmid"@, digits_of(id as nat))]);
    let mut upstat_query: Vec<(String, String)> = Vec::new();
    upstat_query.push(pair("mid", user.as_str()));
    assert(query_view(upstat_query@) =~= seq![("mid"@, digits_of(id as nat))]);
    let relation = plan(
        Method::Get,
        "https://api.bilibili.com/x/relation/stat",
        &relation_query,
        Body::Empty,
    );
    let upstat = plan(
        Method::Get,
        "https://api.bilibili.com/x/space/upstat",
        &upstat_query,
        Body::Empty,
    );
    match (relation, upstat) {
        (Ok(first), Ok(second)) => Ok((first, second)),
        _ => Err(Error::InvalidUrl),
    }
}

/// What the two replies amount to: a request that got no response fails the
/// pair; otherwise the first reply that is not the expected payload does;
/// otherwise the pair is follower count and view count.
pub open spec fn stat_pair(stat: Reply<StatResponse>, upstat: Reply<UpstatResponse>) -> Result<
    (i32, i32),
    Error,
> {
    if stat is Unreachable || upstat is Unreachable {
        Err(Error::Transport)
    } else {
        match stat.outcome(Platform::Bilibili) {
            Err(error) => Err(error),
            Ok(relation) => match upstat.outcome(Platform::Bilibili) {
                Err(error) => Err(error),
                Ok(uploads) => Ok((relation.data.follower, uploads.data.archive.view)),
            },
        }
    }
}

/// Follower count and view count of one user, from the replies to
/// [`bilibili_stat_requests`].
pub fn bilibili_stat(stat: Reply<StatResponse>, upstat: Reply<UpstatResponse>) -> (result: Result<
    (i32, i32),
    Error,
>)
    ensures
        result == stat_pair(stat, upstat),
{
    let relation = stat.accept(Platform::Bilibili);
    let uploads = upstat.accept(Platform::Bilibili);
    match (relation, uploads) {
        (Err(Error::Transport), _) => Err(Error::Transport),
        (_, Err(Error::Transport)) => Err(Error::Transport),
        (Err(error), _) => Err(error),
        (Ok(_), Err(error)) => Err(error),
        (Ok(first), Ok(second)) => Ok(stats_pair(&first, &second)),
    }
}

} // verus!
