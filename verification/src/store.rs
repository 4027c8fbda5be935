//! The remote document store: the requests that read and write it under the
//! current credential, and what its replies amount to.
//!
//! Every request carries the access token as the query parameter `auth`.
//! Reads that feed an aggregate fail loudly; the write-back is best effort
//! and reports an outcome instead of an error.

use std::collections::HashMap;
use vstd::prelude::*;
use vstd::string::StringExecFns;

use crate::aggregate::{counts_of, mean, peak, stream_summary, timestamp_index, ascending, Counts};
use crate::credential::Database;
use crate::decimal::{decimal_of, render_i64};
use crate::error::{is_success, status_is_success, Error, Platform, Reply};
use crate::fanout::{
    bounded_tolerant, indexed, join_all_or_fail, joins, lemma_successes_sound, successes,
};
use crate::request::{
    pair, plan, planned, query_view, texts, Body, BodyModel, Config, Method, Request,
    RequestModel,
};

verus! {

/// The address of a document: the project's host followed by the path.
pub open spec fn store_base(project: Seq<char>, path: Seq<char>) -> Seq<char> {
    "https://"@ + project + ".firebaseio.com"@ + path
}

/// The path of the index of snapshot timestamps.
pub open spec fn timestamps_path() -> Seq<char> {
    "/vtuberStats/_timestamps.json"@
}

/// The path of one channel's snapshot at one timestamp.
pub open spec fn snapshot_path(entity: Seq<char>, timestamp: int) -> Seq<char> {
    "/vtuberStats/"@ + entity + "/"@ + decimal_of(timestamp) + ".json"@
}

/// The path of one stream's viewer counts.
pub open spec fn stream_path(entity: Seq<char>) -> Seq<char> {
    "/streamStats/"@ + entity + ".json"@
}

/// The path of the list of current streams.
pub open spec fn current_path() -> Seq<char> {
    "/streams/_current.json"@
}

/// The path of the root document.
pub open spec fn root_path() -> Seq<char> {
    "/.json"@
}

/// The read of the document at `path`, authorized by `token`.
pub open spec fn read_plan(project: Seq<char>, token: Seq<char>, path: Seq<char>) -> Option<
    RequestModel,
> {
    planned(Method::Get, store_base(project, path), seq![("auth"@, token)], BodyModel::Empty)
}

/// The merge of `payload` into the document at `path`, authorized by
/// `token`: members that the payload does not name stay as they are, and the
/// store is asked not to echo the result.
pub open spec fn write_plan(
    project: Seq<char>,
    token: Seq<char>,
    path: Seq<char>,
    payload: Seq<char>,
) -> Option<RequestModel> {
    planned(
        Method::Patch,
        store_base(project, path),
        seq![("format"@, "silent"@), ("auth"@, token)],
        BodyModel::Raw(payload),
    )
}

/// How the write-back ended. Neither outcome is an error.
#[derive(Debug, Clone, Copy, PartialEq, Eq, Structural)]
pub enum WriteOutcome {
    /// The store answered in the success class.
    Updated,
    /// The store was not reached, or answered outside the success class. The
    /// next run writes again.
    Failed,
}

/// The rows of channel, mean and peak for the streams that a tolerant batch
/// kept, in their order. `kept` pairs each stream's place among `ids` with
/// its observations. A stream without a single observation has neither mean
/// nor peak and fails the whole.
pub open spec fn summary_rows(ids: Seq<Seq<char>>, kept: Seq<(int, Counts)>) -> Result<
    Seq<(Seq<char>, int, int)>,
    Error,
>
    decreases kept.len(),
{
    if kept.len() == 0 {
        Ok(Seq::empty())
    } else {
        match summary_rows(ids, kept.drop_last()) {
            Err(error) => Err(error),
            Ok(rows) => {
                let (place, observations) = kept.last();
                let counts = counts_of(observations@);
                if counts.len() == 0 {
                    Err(Error::EmptyInput)
                } else {
                    Ok(rows.push((ids[place], mean(counts), peak(counts) as int)))
                }
            },
        }
    }
}

/// What the replies to the stream reads amount to: the rows of the streams
/// that a tolerant batch over the replies keeps. Replies are paired with ids
/// by position, as far as both reach.
pub open spec fn stream_rows(ids: Seq<Seq<char>>, replies: Seq<Reply<Counts>>) -> Result<
    Seq<(Seq<char>, int, int)>,
    Error,
> {
    let paired = if ids.len() <= replies.len() {
        ids.len() as int
    } else {
        replies.len() as int
    };
    summary_rows(ids, successes(store_outcomes(replies.take(paired))))
}

/// Once the aggregation has failed, further streams change nothing.
pub proof fn lemma_rows_failure_stays(ids: Seq<Seq<char>>, kept: Seq<(int, Counts)>, failed_at: int)
    requires
        0 <= failed_at <= kept.len(),
        summary_rows(ids, kept.take(failed_at)) is Err,
    ensures
        summary_rows(ids, kept) == summary_rows(ids, kept.take(failed_at)),
    decreases kept.len() - failed_at,
{
    if failed_at < kept.len() {
        assert(kept.drop_last().take(failed_at) =~= kept.take(failed_at));
        lemma_rows_failure_stays(ids, kept.drop_last(), failed_at);
    } else {
        assert(kept.take(failed_at) =~= kept);
    }
}

/// Rows as mathematical values.
pub open spec fn rows_view(rows: Seq<(String, u64, u64)>) -> Seq<(Seq<char>, int, int)> {
    rows.map_values(|row: (String, u64, u64)| (row.0@, row.1 as int, row.2 as int))
}

/// Whether some request of the batch got no response.
pub open spec fn any_unreachable<T>(replies: Seq<Reply<T>>) -> bool {
    exists|i: int| 0 <= i < replies.len() && (#[trigger] replies[i]) is Unreachable
}

/// What each reply of the store stands for.
pub open spec fn store_outcomes<T>(replies: Seq<Reply<T>>) -> Seq<Result<T, Error>> {
    replies.map_values(|reply: Reply<T>| reply.outcome(Platform::Store))
}

/// Whether some request of the batch got no response.
fn has_unreachable<T>(replies: &Vec<Reply<T>>) -> (found: bool)
    ensures
        found == any_unreachable(replies@),
{
    let mut i: usize = 0;
    while i < replies.len()
        invariant
            i <= replies@.len(),
            forall|k: int| 0 <= k < i ==> !((#[trigger] replies@[k]) is Unreachable),
        decreases replies@.len() - i,
    {
        match &replies[i] {
            Reply::Unreachable => {
                return true;
            },
            Reply::Answered { .. } => {},
        }
        i = i + 1;
    }
    false
}

/// The address of the document at `path`.
fn document_address(config: &Config, path: &str) -> (address: String)
    ensures
        address@ == store_base(config.project_id@, path@),
{
    let mut address = String::from_str("https://");
    address.append(config.project_id.as_str());
    address.append(".firebaseio.com");
    address.append(path);
    address
}

/// The path of one stream's viewer counts.
fn stream_document(entity: &str) -> (path: String)
    ensures
        path@ == stream_path(entity@),
{
    let mut path = String::from_str("/streamStats/");
    path.append(entity);
    path.append(".json");
    path
}

/// The path of one channel's snapshot at one timestamp.
fn snapshot_document(entity: &str, timestamp: i64) -> (path: String)
    ensures
        path@ == snapshot_path(entity@, timestamp as int),
{
    let mut path = String::from_str("/vtuberStats/");
    path.append(entity);
    path.append("/");
    path.append(render_i64(timestamp).as_str());
    path.append(".json");
    path
}

impl Database {
    /// The request that reads the document at `path`.
    pub fn read(&self, config: &Config, path: &str) -> (result: Result<Request, Error>)
        ensures
            match read_plan(config.project_id@, self@.id_token, path@) {
                Some(model) => result matches Ok(request) && request@ == model,
                None => result == Err::<Request, Error>(Error::InvalidUrl),
            },
    {
        let address = document_address(config, path);
        let mut query: Vec<(String, String)> = Vec::new();
        query.push(pair("auth", self.id_token.as_str()));
        assert(query_view(query@) =~= seq![("auth"@, self@.id_token)]);
        plan(Method::Get, address.as_str(), &query, Body::Empty)
    }

    /// The request that merges `payload`, a serialized JSON object, into the
    /// document at `path_root`.
    pub fn write(&self, config: &Config, path_root: &str, payload: String) -> (result: Result<
        Request,
        Error,
    >)
        ensures
            match write_plan(config.project_id@, self@.id_token, path_root@, payload@) {
                Some(model) => result matches Ok(request) && request@ == model,
                None => result == Err::<Request, Error>(Error::InvalidUrl),
            },
    {
        let address = document_address(config, path_root);
        let mut query: Vec<(String, String)> = Vec::new();
        query.push(pair("format", "silent"));
        query.push(pair("auth", self.id_token.as_str()));
        assert(query_view(query@) =~= seq![("format"@, "silent"@), ("auth"@, self@.id_token)]);
        plan(Method::Patch, address.as_str(), &query, Body::Raw(payload))
    }

    /// The write-back: the request that merges `values` into the root
    /// document.
    pub fn patch_values_request(&self, config: &Config, values: String) -> (result: Result<
        Request,
        Error,
    >)
        ensures
            match write_plan(config.project_id@, self@.id_token, root_path(), values@) {
                Some(model) => result matches Ok(request) && request@ == model,
                None => result == Err::<Request, Error>(Error::InvalidUrl),
            },
    {
        self.write(config, "/.json", values)
    }

    /// How the write-back ended: updated exactly when the store answered in
    /// the success class. No reply makes this an error.
    pub fn patch_values<T>(reply: &Reply<T>) -> (outcome: WriteOutcome)
        ensures
            outcome == WriteOutcome::Updated <==> (*reply matches Reply::Answered { status, .. }
                && is_success(status)),
    {
        match reply {
            Reply::Answered { status, .. } => {
                if status_is_success(*status) {
                    WriteOutcome::Updated
                } else {
                    WriteOutcome::Failed
                }
            },
            Reply::Unreachable => WriteOutcome::Failed,
        }
    }

    /// The request that reads the index of snapshot timestamps.
    pub fn vtuber_stats_timestamps_request(&self, config: &Config) -> (result: Result<
        Request,
        Error,
    >)
        ensures
            match read_plan(config.project_id@, self@.id_token, timestamps_path()) {
                Some(model) => result matches Ok(request) && request@ == model,
                None => result == Err::<Request, Error>(Error::InvalidUrl),
            },
    {
        self.read(config, "/vtuberStats/_timestamps.json")
    }

    /// The snapshot timestamps in ascending order, from the reply to
    /// [`Database::vtuber_stats_timestamps_request`].
    pub fn vtuber_stats_timestamps(reply: Reply<HashMap<i64, bool>>) -> (result: Result<
        Vec<i64>,
        Error,
    >)
        ensures
            match reply.outcome(Platform::Store) {
                Ok(raw) => result matches Ok(index) && ascending(index@) && index@.len()
                    == raw@.dom().len() && forall|k: i64|
                    index@.contains(k) <==> raw@.contains_key(k),
                Err(error) => result == Err::<Vec<i64>, Error>(error),
            },
    {
        match reply.accept(Platform::Store) {
            Ok(raw) => Ok(timestamp_index(&raw)),
            Err(error) => Err(error),
        }
    }

    /// The request that reads the list of current streams.
    pub fn current_streams_request(&self, config: &Config) -> (result: Result<Request, Error>)
        ensures
            match read_plan(config.project_id@, self@.id_token, current_path()) {
                Some(model) => result matches Ok(request) && request@ == model,
                None => result == Err::<Request, Error>(Error::InvalidUrl),
            },
    {
        self.read(config, "/streams/_current.json")
    }

    /// The current streams, from the reply to
    /// [`Database::current_streams_request`].
    pub fn current_streams(reply: Reply<HashMap<String, bool>>) -> (result: Result<
        HashMap<String, bool>,
        Error,
    >)
        ensures
            result == reply.outcome(Platform::Store),
    {
        reply.accept(Platform::Store)
    }

    /// The requests that read the viewer counts of the streams `ids`, one per
    /// stream and in their order.
    pub fn stream_stats_requests(&self, config: &Config, ids: &Vec<String>) -> (result: Result<
        Vec<Request>,
        Error,
    >)
        ensures
            match result {
                Ok(requests) => requests@.len() == ids@.len() && forall|i: int|
                    0 <= i < ids@.len() ==> read_plan(
                        config.project_id@,
                        self@.id_token,
                        stream_path(ids@[i]@),
                    ) == Some((#[trigger] requests@[i])@),
                Err(error) => error == Error::InvalidUrl && exists|i: int|
                    0 <= i < ids@.len() && read_plan(
                        config.project_id@,
                        self@.id_token,
                        stream_path((#[trigger] ids@[i])@),
                    ) is None,
            },
    {
        let mut requests: Vec<Request> = Vec::new();
        let mut i: usize = 0;
        while i < ids.len()
            invariant
                i <= ids@.len(),
                requests@.len() == i,
                forall|k: int|
                    0 <= k < i ==> read_plan(
                        config.project_id@,
                        self@.id_token,
                        stream_path(ids@[k]@),
                    ) == Some((#[trigger] requests@[k])@),
            decreases ids@.len() - i,
        {
            let path = stream_document(ids[i].as_str());
            match self.read(config, path.as_str()) {
                Ok(request) => {
                    requests.push(request);
                },
                Err(_) => {
                    assert(read_plan(
                        config.project_id@,
                        self@.id_token,
                        stream_path(ids@[i as int]@),
                    ) is None);
                    return Err(Error::InvalidUrl);
                },
            }
            i = i + 1;
        }
        Ok(requests)
    }

    /// Mean and peak of each stream's viewer counts, from the replies to
    /// [`Database::stream_stats_requests`] in the order of the requests.
    ///
    /// The replies are read as a tolerant batch: a stream whose read failed,
    /// for whatever reason, is left out. A stream that was read and holds no
    /// observation ends the aggregation with [`Error::EmptyInput`]. Replies
    /// beyond the last id, and ids beyond the last reply, are ignored.
    pub fn stream_stats(ids: &Vec<String>, replies: Vec<Reply<Counts>>) -> (result: Result<
        Vec<(String, u64, u64)>,
        Error,
    >)
        ensures
            match stream_rows(texts(ids@), replies@) {
                Ok(rows) => result matches Ok(found) && rows_view(found@) == rows,
                Err(error) => result == Err::<Vec<(String, u64, u64)>, Error>(error),
            },
    {
        let paired: usize = if ids.len() <= replies.len() {
            ids.len()
        } else {
            replies.len()
        };
        let ghost all = replies@;
        let mut outcomes: Vec<Result<Counts, Error>> = Vec::new();
        for reply in iter: replies
            invariant
                iter.seq() == all,
                paired <= all.len(),
                outcomes@.len() == if iter.index() <= paired {
                    iter.index()
                } else {
                    paired as int
                },
                forall|k: int|
                    0 <= k < outcomes@.len() ==> #[trigger] outcomes@[k] == all[k].outcome(
                        Platform::Store,
                    ),
        {
            if outcomes.len() < paired {
                outcomes.push(reply.accept(Platform::Store));
            }
        }
        assert(outcomes@ =~= store_outcomes(all.take(paired as int)));
        let ghost legs = outcomes@;
        let kept = bounded_tolerant(outcomes);
        let ghost chosen = indexed(kept@);
        proof {
            lemma_successes_sound(legs);
        }
        let mut rows: Vec<(String, u64, u64)> = Vec::new();
        let mut i: usize = 0;
        assert(rows_view(rows@) =~= Seq::empty());
        assert(chosen.take(0) =~= Seq::empty());
        assert(stream_rows(texts(ids@), all) == summary_rows(texts(ids@), chosen));
        while i < kept.len()
            invariant
                i <= kept@.len(),
                chosen == indexed(kept@),
                all == replies@,
                stream_rows(texts(ids@), all) == summary_rows(texts(ids@), chosen),
                paired <= ids@.len(),
                forall|k: int| 0 <= k < chosen.len() ==> 0 <= (#[trigger] chosen[k]).0 < paired,
                summary_rows(texts(ids@), chosen.take(i as int)) == Ok::<
                    Seq<(Seq<char>, int, int)>,
                    Error,
                >(rows_view(rows@)),
            decreases kept@.len() - i,
        {
            let ghost before = rows_view(rows@);
            proof {
                let grown = chosen.take(i + 1);
                assert(grown.drop_last() =~= chosen.take(i as int));
                assert(grown.last() == chosen[i as int]);
                assert(chosen[i as int] == (kept@[i as int].0 as int, kept@[i as int].1));
            }
            let place: usize = kept[i].0;
            match stream_summary(&kept[i].1) {
                Ok(summary) => {
                    let id = ids[place].clone();
                    rows.push((id, summary.mean, summary.max));
                    assert(rows_view(rows@) =~= before.push(
                        (
                            texts(ids@)[place as int],
                            mean(counts_of(kept@[i as int].1@)),
                            peak(counts_of(kept@[i as int].1@)) as int,
                        ),
                    ));
                },
                Err(_) => {
                    proof {
                        lemma_rows_failure_stays(texts(ids@), chosen, i + 1);
                    }
                    return Err(Error::EmptyInput);
                },
            }
            i = i + 1;
        }
        assert(chosen.take(i as int) =~= chosen);
        Ok(rows)
    }

    /// The requests that read the snapshots taken at `timestamp` of the
    /// channels `names`, one per channel and in their order.
    pub fn vtuber_stats_at_requests(
        &self,
        config: &Config,
        names: &Vec<String>,
        timestamp: i64,
    ) -> (result: Result<Vec<Request>, Error>)
        ensures
            match result {
                Ok(requests) => requests@.len() == names@.len() && forall|i: int|
                    0 <= i < names@.len() ==> read_plan(
                        config.project_id@,
                        self@.id_token,
                        snapshot_path(names@[i]@, timestamp as int),
                    ) == Some((#[trigger] requests@[i])@),
                Err(error) => error == Error::InvalidUrl && exists|i: int|
                    0 <= i < names@.len() && read_plan(
                        config.project_id@,
                        self@.id_token,
                        snapshot_path((#[trigger] names@[i])@, timestamp as int),
                    ) is None,
            },
    {
        let mut requests: Vec<Request> = Vec::new();
        let mut i: usize = 0;
        while i < names.len()
            invariant
                i <= names@.len(),
                requests@.len() == i,
                forall|k: int|
                    0 <= k < i ==> read_plan(
                        config.project_id@,
                        self@.id_token,
                        snapshot_path(names@[k]@, timestamp as int),
                    ) == Some((#[trigger] requests@[k])@),
            decreases names@.len() - i,
        {
            let path = snapshot_document(names[i].as_str(), timestamp);
            match self.read(config, path.as_str()) {
                Ok(request) => {
                    requests.push(request);
                },
                Err(_) => {
                    assert(read_plan(
                        config.project_id@,
                        self@.id_token,
                        snapshot_path(names@[i as int]@, timestamp as int),
                    ) is None);
                    return Err(Error::InvalidUrl);
                },
            }
            i = i + 1;
        }
        Ok(requests)
    }

    /// The snapshots of all channels, from the replies to
    /// [`Database::vtuber_stats_at_requests`] in the order of the requests.
    /// All or nothing: a request that got no response fails the batch, and so
    /// does the first reply that is no snapshot.
    pub fn vtuber_stats_at(replies: Vec<Reply<[i32; 4]>>) -> (result: Result<
        Vec<[i32; 4]>,
        Error,
    >)
        ensures
            if any_unreachable(replies@) {
                result == Err::<Vec<[i32; 4]>, Error>(Error::Transport)
            } else {
                match result {
                    Ok(rows) => joins(store_outcomes(replies@), Ok(rows@)),
                    Err(error) => joins(store_outcomes(replies@), Err(error)),
                }
            },
    {
        if has_unreachable(&replies) {
            return Err(Error::Transport);
        }
        let ghost all = replies@;
        let mut outcomes: Vec<Result<[i32; 4], Error>> = Vec::new();
        for reply in iter: replies
            invariant
                iter.seq() == all,
                outcomes@.len() == iter.index(),
                forall|k: int|
                    0 <= k < iter.index() ==> #[trigger] outcomes@[k] == all[k].outcome(
                        Platform::Store,
                    ),
        {
            outcomes.push(reply.accept(Platform::Store));
        }
        assert(outcomes@ =~= store_outcomes(all));
        join_all_or_fail(outcomes)
    }
}

} // verus!
