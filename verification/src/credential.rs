//! The renewable credential: when it must be refreshed, what a sign-in or
//! refresh exchange makes of it, and the record under which it is stored.

use vstd::prelude::*;
use vstd::string::StringExecFns;

use crate::decimal::{decimal_value, parse_i64};
use crate::error::{Error, Platform, Reply};
use crate::request::{
    pair, plan, planned, query_view, Body, BodyModel, Config, FieldModel, FieldValue, Method,
    Request, RequestModel,
};
use crate::time::{instant_of_text, Timestamp};

verus! {

/// A credential that expires less than this many seconds from now is
/// refreshed before it authorizes anything.
pub const REFRESH_MARGIN_SECONDS: u32 = 5;

/// The credential under which the document store is read and written: an
/// access token, the token that renews it, and the instant the access token
/// expires.
#[derive(Debug, Clone, PartialEq, Eq)]
pub struct Database {
    pub id_token: String,
    pub refresh_token: String,
    pub expires_at: Timestamp,
}

/// A credential as a mathematical value.
pub ghost struct Credential {
    pub id_token: Seq<char>,
    pub refresh_token: Seq<char>,
    pub expires_at: Timestamp,
}

impl View for Database {
    type V = Credential;

    open spec fn view(&self) -> Credential {
        Credential {
            id_token: self.id_token@,
            refresh_token: self.refresh_token@,
            expires_at: self.expires_at,
        }
    }
}

/// The stored form of a credential: the two tokens and the expiry as RFC 3339
/// text. The three fields are written and read together.
#[derive(Debug, Clone, PartialEq, Eq)]
pub struct StoredRecord {
    pub id_token: String,
    pub refresh_token: String,
    pub expires_at: String,
}

/// A stored record as a mathematical value.
pub ghost struct Record {
    pub id_token: Seq<char>,
    pub refresh_token: Seq<char>,
    pub expires_at: Seq<char>,
}

impl View for StoredRecord {
    type V = Record;

    open spec fn view(&self) -> Record {
        Record {
            id_token: self.id_token@,
            refresh_token: self.refresh_token@,
            expires_at: self.expires_at@,
        }
    }
}

/// What the identity service grants in a sign-in or a refresh exchange, after
/// either wire form has been decoded: the two tokens and the lifetime of the
/// access token, in seconds, as decimal text.
#[derive(Debug, Clone, PartialEq, Eq)]
pub struct TokenGrant {
    pub id_token: String,
    pub refresh_token: String,
    pub expires_in: String,
}

/// What to do with a credential before it authorizes a request.
#[derive(Debug, Clone, Copy, PartialEq, Eq, Structural)]
pub enum CredentialAction {
    /// The credential is good for more than the margin: no exchange is made.
    Proceed,
    /// The credential is about to expire or has expired: refresh it first.
    Refresh,
}

/// How a process starts, given what it found in durable storage.
#[derive(Debug, Clone, PartialEq, Eq)]
pub enum Startup {
    /// The stored credential is good: use it.
    Ready(Database),
    /// The stored credential is about to expire: refresh it, then use it.
    Refresh(Database),
    /// Nothing usable is stored: sign in, starting from this blank credential.
    SignIn(Database),
}

/// The credential a process holds before it has signed in: no tokens, and an
/// expiry that has already come.
pub open spec fn blank(now: Timestamp) -> Credential {
    Credential { id_token: Seq::empty(), refresh_token: Seq::empty(), expires_at: now }
}

/// The action that a credential calls for at `now`.
pub open spec fn action_at(credential: Credential, now: Timestamp) -> CredentialAction {
    if credential.expires_at.within(now, REFRESH_MARGIN_SECONDS as int) {
        CredentialAction::Refresh
    } else {
        CredentialAction::Proceed
    }
}

/// The credential that an exchange answered at `now` grants, if it grants one:
/// the identity service answered in the success class, the body decoded, the
/// lifetime is a decimal number of seconds, and the expiry it leads to can be
/// represented.
pub open spec fn granted(now: Timestamp, reply: Reply<TokenGrant>) -> Option<Credential> {
    match reply.outcome(Platform::Identity) {
        Ok(grant) => match decimal_value(grant.expires_in@) {
            Some(lifetime) => match now.plus_seconds(lifetime) {
                Some(expires_at) => Some(
                    Credential {
                        id_token: grant.id_token@,
                        refresh_token: grant.refresh_token@,
                        expires_at,
                    },
                ),
                None => None,
            },
            None => None,
        },
        Err(_) => None,
    }
}

/// The record under which a credential is stored, if its expiry has a text
/// that reads back as the same instant.
pub open spec fn record_of(credential: Credential) -> Option<Record> {
    match credential.expires_at.stored_text() {
        Some(text) => Some(
            Record {
                id_token: credential.id_token,
                refresh_token: credential.refresh_token,
                expires_at: text,
            },
        ),
        None => None,
    }
}

/// The credential that a record holds, if its expiry field is a date and time.
pub open spec fn restored(record: Record) -> Option<Credential> {
    match instant_of_text(record.expires_at) {
        Some(expires_at) => Some(
            Credential {
                id_token: record.id_token,
                refresh_token: record.refresh_token,
                expires_at,
            },
        ),
        None => None,
    }
}

/// What was found in durable storage, as a credential: `None` where nothing
/// was found, the record was malformed, or its expiry field is corrupted.
pub open spec fn found(stored: Option<StoredRecord>) -> Option<Credential> {
    match stored {
        Some(record) => restored(record@),
        None => None,
    }
}

/// The sign-in exchange: the account's email and password, posted as a JSON
/// object under the project's key, asking for a renewable token.
pub open spec fn sign_in_plan(key: Seq<char>, email: Seq<char>, password: Seq<char>) -> Option<
    RequestModel,
> {
    planned(
        Method::Post,
        "https://identitytoolkit.googleapis.com/v1/accounts:signInWithPassword"@,
        seq![("key"@, key)],
        BodyModel::Fields(
            seq![
                ("email"@, FieldModel::Text(email)),
                ("password"@, FieldModel::Text(password)),
                ("returnSecureToken"@, FieldModel::Flag(true)),
            ],
        ),
    )
}

/// The refresh exchange: the refresh token, posted as a JSON object under the
/// project's key.
pub open spec fn refresh_plan(key: Seq<char>, refresh_token: Seq<char>) -> Option<RequestModel> {
    planned(
        Method::Post,
        "https://securetoken.googleapis.com/v1/token"@,
        seq![("key"@, key)],
        BodyModel::Fields(
            seq![
                ("grantType"@, FieldModel::Text("refresh_token"@)),
                ("refreshToken"@, FieldModel::Text(refresh_token)),
            ],
        ),
    )
}

/// One member of a JSON body that holds text.
fn text_field(name: &str, value: &str) -> (field: (String, FieldValue))
    ensures
        field.0@ == name@,
        field.1@ == FieldModel::Text(value@),
{
    (String::from_str(name), FieldValue::Text(String::from_str(value)))
}

impl Default for Database {
    /// A blank credential whose expiry is the clock's reading.
    fn default() -> (db: Database)
        ensures
            db@.id_token == Seq::<char>::empty(),
            db@.refresh_token == Seq::<char>::empty(),
    {
        Database::blank(Timestamp::now())
    }
}

impl Database {
    /// A credential without tokens that expired at `now`.
    pub fn blank(now: Timestamp) -> (db: Database)
        ensures
            db@ == blank(now),
    {
        Database { id_token: String::new(), refresh_token: String::new(), expires_at: now }
    }

    /// Decides whether this credential may authorize a request at `now`:
    /// `Refresh` exactly when it expires less than five seconds from `now`.
    pub fn ensure_valid(&self, now: Timestamp) -> (action: CredentialAction)
        ensures
            action == action_at(self@, now),
    {
        if self.expires_at.is_within(now, REFRESH_MARGIN_SECONDS) {
            CredentialAction::Refresh
        } else {
            CredentialAction::Proceed
        }
    }

    /// Starts from the parts of a stored record whose expiry field has been
    /// read: sign in if the field was no date and time, refresh if the
    /// credential is about to expire, use it otherwise.
    pub fn resume(
        id_token: String,
        refresh_token: String,
        expires_at: Option<Timestamp>,
        now: Timestamp,
    ) -> (startup: Startup)
        ensures
            match expires_at {
                None => startup matches Startup::SignIn(db) && db@ == blank(now),
                Some(instant) => {
                    let credential = Credential {
                        id_token: id_token@,
                        refresh_token: refresh_token@,
                        expires_at: instant,
                    };
                    match action_at(credential, now) {
                        CredentialAction::Refresh => startup matches Startup::Refresh(db) && db@
                            == credential,
                        CredentialAction::Proceed => startup matches Startup::Ready(db) && db@
                            == credential,
                    }
                },
            },
    {
        match expires_at {
            None => Startup::SignIn(Database::blank(now)),
            Some(instant) => {
                let db = Database { id_token, refresh_token, expires_at: instant };
                match db.ensure_valid(now) {
                    CredentialAction::Refresh => Startup::Refresh(db),
                    CredentialAction::Proceed => Startup::Ready(db),
                }
            },
        }
    }

    /// Starts a process from what durable storage held at `now`. `stored` is
    /// `None` where no record exists or the record is malformed. A record
    /// that is absent, malformed or has a corrupted expiry leads to sign-in,
    /// never to a failure.
    pub fn new(stored: Option<StoredRecord>, now: Timestamp) -> (startup: Startup)
        ensures
            match found(stored) {
                None => startup matches Startup::SignIn(db) && db@ == blank(now),
                Some(credential) => match action_at(credential, now) {
                    CredentialAction::Refresh => startup matches Startup::Refresh(db) && db@
                        == credential,
                    CredentialAction::Proceed => startup matches Startup::Ready(db) && db@
                        == credential,
                },
            },
    {
        match stored {
            None => Startup::SignIn(Database::blank(now)),
            Some(record) => {
                let expires_at = Timestamp::from_text(record.expires_at.as_str());
                Database::resume(record.id_token, record.refresh_token, expires_at, now)
            },
        }
    }

    /// The request of the sign-in exchange.
    pub fn sign_in_request(config: &Config) -> (result: Result<Request, Error>)
        ensures
            match sign_in_plan(config.web_api_key@, config.email@, config.password@) {
                Some(model) => result matches Ok(request) && request@ == model,
                None => result == Err::<Request, Error>(Error::InvalidUrl),
            },
    {
        let mut query: Vec<(String, String)> = Vec::new();
        query.push(pair("key", config.web_api_key.as_str()));
        assert(query_view(query@) =~= seq![("key"@, config.web_api_key@)]);
        let mut fields: Vec<(String, FieldValue)> = Vec::new();
        fields.push(text_field("email", config.email.as_str()));
        fields.push(text_field("password", config.password.as_str()));
        fields.push((String::from_str("returnSecureToken"), FieldValue::Flag(true)));
        let body = Body::Fields(fields);
        assert(body@ =~= BodyModel::Fields(
            seq![
                ("email"@, FieldModel::Text(config.email@)),
                ("password"@, FieldModel::Text(config.password@)),
                ("returnSecureToken"@, FieldModel::Flag(true)),
            ],
        )) by {
            assert(body@->Fields_0 =~= seq![
                ("email"@, FieldModel::Text(config.email@)),
                ("password"@, FieldModel::Text(config.password@)),
                ("returnSecureToken"@, FieldModel::Flag(true)),
            ]);
        }
        plan(
            Method::Post,
            "https://identitytoolkit.googleapis.com/v1/accounts:signInWithPassword",
            &query,
            body,
        )
    }

    /// The request of the refresh exchange for this credential.
    pub fn refresh_token_request(&self, config: &Config) -> (result: Result<Request, Error>)
        ensures
            match refresh_plan(config.web_api_key@, self@.refresh_token) {
                Some(model) => result matches Ok(request) && request@ == model,
                None => result == Err::<Request, Error>(Error::InvalidUrl),
            },
    {
        let mut query: Vec<(String, String)> = Vec::new();
        query.push(pair("key", config.web_api_key.as_str()));
        assert(query_view(query@) =~= seq![("key"@, config.web_api_key@)]);
        let mut fields: Vec<(String, FieldValue)> = Vec::new();
        fields.push(text_field("grantType", "refresh_token"));
        fields.push(text_field("refreshToken", self.refresh_token.as_str()));
        let body = Body::Fields(fields);
        assert(body@ =~= BodyModel::Fields(
            seq![
                ("grantType"@, FieldModel::Text("refresh_token"@)),
                ("refreshToken"@, FieldModel::Text(self@.refresh_token)),
            ],
        )) by {
            assert(body@->Fields_0 =~= seq![
                ("grantType"@, FieldModel::Text("refresh_token"@)),
                ("refreshToken"@, FieldModel::Text(self@.refresh_token)),
            ]);
        }
        plan(Method::Post, "https://securetoken.googleapis.com/v1/token", &query, body)
    }

    /// Installs what an exchange granted, or leaves the credential untouched
    /// and reports an authorization failure.
    fn install(&mut self, now: Timestamp, reply: Reply<TokenGrant>) -> (result: Result<(), Error>)
        ensures
            match granted(now, reply) {
                Some(credential) => result is Ok && final(self)@ == credential,
                None => result == Err::<(), Error>(Error::Auth) && final(self)@ == old(self)@,
            },
    {
        match reply.accept(Platform::Identity) {
            Ok(grant) => match parse_i64(grant.expires_in.as_str()) {
                Some(lifetime) => match now.checked_add_seconds(lifetime) {
                    Some(expires_at) => {
                        self.id_token = grant.id_token;
                        self.refresh_token = grant.refresh_token;
                        self.expires_at = expires_at;
                        Ok(())
                    },
                    None => Err(Error::Auth),
                },
                None => Err(Error::Auth),
            },
            Err(_) => Err(Error::Auth),
        }
    }

    /// Takes in the answer to a sign-in exchange that completed at `now`. On
    /// success all three fields are replaced and the expiry is `now` plus the
    /// granted lifetime. On any failure the credential is left as it was and
    /// the error is [`Error::Auth`].
    pub fn sign_in(&mut self, now: Timestamp, reply: Reply<TokenGrant>) -> (result: Result<
        (),
        Error,
    >)
        ensures
            match granted(now, reply) {
                Some(credential) => result is Ok && final(self)@ == credential,
                None => result == Err::<(), Error>(Error::Auth) && final(self)@ == old(self)@,
            },
    {
        self.install(now, reply)
    }

    /// Takes in the answer to a refresh exchange that completed at `now`, in
    /// the same way as [`Database::sign_in`]. A failure here must end the
    /// calling operation: the stale credential is not to be used.
    pub fn refresh_token(&mut self, now: Timestamp, reply: Reply<TokenGrant>) -> (result: Result<
        (),
        Error,
    >)
        ensures
            match granted(now, reply) {
                Some(credential) => result is Ok && final(self)@ == credential,
                None => result == Err::<(), Error>(Error::Auth) && final(self)@ == old(self)@,
            },
    {
        self.install(now, reply)
    }

    /// The record to write after a successful sign-in or refresh. There is
    /// none where the expiry has no text that reads back as the same instant.
    pub fn record(&self) -> (record: Option<StoredRecord>)
        ensures
            match record {
                Some(r) => record_of(self@) == Some(r@),
                None => record_of(self@) is None,
            },
    {
        match self.expires_at.to_text() {
            Some(text) => Some(
                StoredRecord {
                    id_token: self.id_token.clone(),
                    refresh_token: self.refresh_token.clone(),
                    expires_at: text,
                },
            ),
            None => None,
        }
    }

    /// The credential that a stored record holds.
    pub fn from_record(record: &StoredRecord) -> (db: Option<Database>)
        ensures
            match db {
                Some(d) => restored(record@) == Some(d@),
                None => restored(record@) is None,
            },
    {
        match Timestamp::from_text(record.expires_at.as_str()) {
            Some(expires_at) => Some(
                Database {
                    id_token: record.id_token.clone(),
                    refresh_token: record.refresh_token.clone(),
                    expires_at,
                },
            ),
            None => None,
        }
    }
}

/// Storing a credential and reading the record back gives the same
/// credential, field for field.
pub proof fn lemma_record_round_trip(credential: Credential, record: Record)
    requires
        record_of(credential) == Some(record),
    ensures
        restored(record) == Some(credential),
{
}

/// The credential that an exchange grants expires exactly the granted
/// lifetime after the exchange was answered.
pub proof fn lemma_grant_sets_expiry(now: Timestamp, reply: Reply<TokenGrant>)
    requires
        granted(now, reply) is Some,
    ensures
        ({
            let grant = reply.outcome(Platform::Identity)->Ok_0;
            let lifetime = decimal_value(grant.expires_in@)->0;
            granted(now, reply)->0.expires_at.nanos_since_epoch() == now.nanos_since_epoch()
                + lifetime * 1_000_000_000
        }),
{
}

/// Away from the boundary of exactly five seconds, a credential that expires
/// no later than five seconds from now is refreshed, and one that expires
/// later is used without any exchange.
pub proof fn lemma_refresh_before_expiry(credential: Credential, now: Timestamp)
    requires
        credential.expires_at.nanos_since_epoch() != now.nanos_since_epoch() + 5_000_000_000,
    ensures
        credential.expires_at.nanos_since_epoch() <= now.nanos_since_epoch() + 5_000_000_000
            ==> action_at(credential, now) == CredentialAction::Refresh,
        credential.expires_at.nanos_since_epoch() > now.nanos_since_epoch() + 5_000_000_000
            ==> action_at(credential, now) == CredentialAction::Proceed,
{
}

} // verus!
