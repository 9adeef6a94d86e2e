//! The Porkbun DNS API: the requests that it takes and what its replies mean.
//!
//! Every call is a POST of a JSON body that carries the credentials.
use vstd::prelude::*;
use crate::json;
use crate::json::{string_member, Json, JsonView, Members};
use crate::model;
use crate::text::same;

verus! {

/// Where the public API is served.
pub const BASE_URL: &'static str = "https://api.porkbun.com/api/json/v3";

/// Why a call failed.
#[derive(Debug, PartialEq, Eq)]
pub enum PorkbunClientError {
    /// The request or the reply did not get through; the text says why.
    RequestFailed(String),
    /// The API answered with something other than success.
    ApiError { endpoint: String, message: String },
}

/// API credentials, part of every request body.
#[derive(Debug, Clone, PartialEq, Eq)]
pub struct Auth {
    pub apikey: String,
    pub secretapikey: String,
}

/// A DNS record as the retrieve endpoint returns it.
#[derive(Debug, Clone, PartialEq, Eq)]
pub struct PorkbunRecord {
    pub id: String,
    pub name: String,
    pub record_type: String,
    pub content: String,
    pub ttl: String,
    pub prio: Option<String>,
    pub notes: Option<String>,
}

/// The reply of the retrieve endpoint.
#[derive(Debug, PartialEq, Eq)]
pub struct RetrieveResponse {
    pub status: String,
    pub message: Option<String>,
    pub records: Vec<PorkbunRecord>,
}

/// The reply of the other endpoints.
#[derive(Debug, PartialEq, Eq)]
pub struct StatusResponse {
    pub status: String,
    pub message: Option<String>,
}

/// The fields of a create or edit request.
#[derive(Debug, PartialEq, Eq)]
pub struct RecordRequest {
    pub name: String,
    pub record_type: String,
    pub content: String,
    pub ttl: String,
    pub prio: Option<String>,
}

/// A POST request.
#[derive(Debug, PartialEq, Eq)]
pub struct ApiCall {
    pub url: String,
    pub body: Json,
}

/// Builds the requests of one account.
#[derive(Debug, PartialEq, Eq)]
pub struct PorkbunClient {
    pub base_url: String,
    pub auth: Auth,
}

pub enum ClientErrorView {
    RequestFailed(Seq<char>),
    ApiError { endpoint: Seq<char>, message: Seq<char> },
}

pub struct AuthView {
    pub apikey: Seq<char>,
    pub secretapikey: Seq<char>,
}

pub struct PorkbunRecordView {
    pub id: Seq<char>,
    pub name: Seq<char>,
    pub record_type: Seq<char>,
    pub content: Seq<char>,
    pub ttl: Seq<char>,
    pub prio: Option<Seq<char>>,
    pub notes: Option<Seq<char>>,
}

pub struct RetrieveResponseView {
    pub status: Seq<char>,
    pub message: Option<Seq<char>>,
    pub records: Seq<PorkbunRecordView>,
}

pub struct StatusResponseView {
    pub status: Seq<char>,
    pub message: Option<Seq<char>>,
}

pub struct RecordRequestView {
    pub name: Seq<char>,
    pub record_type: Seq<char>,
    pub content: Seq<char>,
    pub ttl: Seq<char>,
    pub prio: Option<Seq<char>>,
}

pub struct ApiCallView {
    pub url: Seq<char>,
    pub body: JsonView,
}

pub struct ClientView {
    pub base_url: Seq<char>,
    pub auth: AuthView,
}

impl View for PorkbunClientError {
    type V = ClientErrorView;

    open spec fn view(&self) -> ClientErrorView {
        match self {
            PorkbunClientError::RequestFailed(text) => ClientErrorView::RequestFailed(text@),
            PorkbunClientError::ApiError { endpoint, message } => ClientErrorView::ApiError {
                endpoint: endpoint@,
                message: message@,
            },
        }
    }
}

impl View for Auth {
    type V = AuthView;

    open spec fn view(&self) -> AuthView {
        AuthView { apikey: self.apikey@, secretapikey: self.secretapikey@ }
    }
}

impl View for PorkbunRecord {
    type V = PorkbunRecordView;

    open spec fn view(&self) -> PorkbunRecordView {
        PorkbunRecordView {
            id: self.id@,
            name: self.name@,
            record_type: self.record_type@,
            content: self.content@,
            ttl: self.ttl@,
            prio: model::opt_view(self.prio),
            notes: model::opt_view(self.notes),
        }
    }
}

impl View for RetrieveResponse {
    type V = RetrieveResponseView;

    open spec fn view(&self) -> RetrieveResponseView {
        RetrieveResponseView {
            status: self.status@,
            message: model::opt_view(self.message),
            records: model::views(self.records@),
        }
    }
}

impl View for StatusResponse {
    type V = StatusResponseView;

    open spec fn view(&self) -> StatusResponseView {
        StatusResponseView { status: self.status@, message: model::opt_view(self.message) }
    }
}

impl View for RecordRequest {
    type V = RecordRequestView;

    open spec fn view(&self) -> RecordRequestView {
        RecordRequestView {
            name: self.name@,
            record_type: self.record_type@,
            content: self.content@,
            ttl: self.ttl@,
            prio: model::opt_view(self.prio),
        }
    }
}

impl View for ApiCall {
    type V = ApiCallView;

    open spec fn view(&self) -> ApiCallView {
        ApiCallView { url: self.url@, body: self.body@ }
    }
}

impl View for PorkbunClient {
    type V = ClientView;

    open spec fn view(&self) -> ClientView {
        ClientView { base_url: self.base_url@, auth: self.auth@ }
    }
}

/// The credentials as members of a request body.
pub open spec fn auth_members(auth: AuthView) -> Members {
    seq![
        ("apikey"@, JsonView::String(auth.apikey)),
        ("secretapikey"@, JsonView::String(auth.secretapikey)),
    ]
}

/// A record as members of a request body.  A record without priority has no
/// such member.
pub open spec fn record_members(record: RecordRequestView) -> Members {
    let members = seq![
        ("name"@, JsonView::String(record.name)),
        ("type"@, JsonView::String(record.record_type)),
        ("content"@, JsonView::String(record.content)),
        ("ttl"@, JsonView::String(record.ttl)),
    ];
    match record.prio {
        Some(prio) => members.push(("prio"@, JsonView::String(prio))),
        None => members,
    }
}

/// The request for all records of a domain.
pub open spec fn retrieve_call(client: ClientView, domain: Seq<char>) -> ApiCallView {
    ApiCallView {
        url: client.base_url + "/dns/retrieve/"@ + domain,
        body: JsonView::Object(auth_members(client.auth)),
    }
}

/// The request for a new record.
pub open spec fn create_call(
    client: ClientView,
    domain: Seq<char>,
    record: RecordRequestView,
) -> ApiCallView {
    ApiCallView {
        url: client.base_url + "/dns/create/"@ + domain,
        body: JsonView::Object(auth_members(client.auth) + record_members(record)),
    }
}

/// The request for a change of the record `id`.
pub open spec fn edit_call(
    client: ClientView,
    domain: Seq<char>,
    id: Seq<char>,
    record: RecordRequestView,
) -> ApiCallView {
    ApiCallView {
        url: client.base_url + "/dns/edit/"@ + domain + "/"@ + id,
        body: JsonView::Object(auth_members(client.auth) + record_members(record)),
    }
}

/// The request for the removal of the record `id`.
pub open spec fn delete_call(client: ClientView, domain: Seq<char>, id: Seq<char>) -> ApiCallView {
    ApiCallView {
        url: client.base_url + "/dns/delete/"@ + domain + "/"@ + id,
        body: JsonView::Object(auth_members(client.auth)),
    }
}

/// The failure that a reply other than success stands for.
pub open spec fn api_error(url: Seq<char>, message: Option<Seq<char>>) -> ClientErrorView {
    ClientErrorView::ApiError {
        endpoint: url,
        message: match message {
            Some(m) => m,
            None => Seq::empty(),
        },
    }
}

/// What a status reply from `url` means.
pub open spec fn checked(resp: StatusResponseView, url: Seq<char>) -> Result<(), ClientErrorView> {
    if resp.status == "SUCCESS"@ {
        Ok(())
    } else {
        Err(api_error(url, resp.message))
    }
}

/// What came of a call of `url` that answers with a status.
pub open spec fn status_result(
    reply: Result<StatusResponseView, Seq<char>>,
    url: Seq<char>,
) -> Result<(), ClientErrorView> {
    match reply {
        Ok(resp) => checked(resp, url),
        Err(text) => Err(ClientErrorView::RequestFailed(text)),
    }
}

/// What came of a call of `url` that answers with records.
pub open spec fn retrieve_result(
    reply: Result<RetrieveResponseView, Seq<char>>,
    url: Seq<char>,
) -> Result<Seq<PorkbunRecordView>, ClientErrorView> {
    match reply {
        Ok(resp) => if resp.status == "SUCCESS"@ {
            Ok(resp.records)
        } else {
            Err(api_error(url, resp.message))
        },
        Err(text) => Err(ClientErrorView::RequestFailed(text)),
    }
}

/// A failure in words.
pub open spec fn client_error_text(e: ClientErrorView) -> Seq<char> {
    match e {
        ClientErrorView::RequestFailed(text) => "HTTP request to Porkbun API failed: "@ + text,
        ClientErrorView::ApiError { endpoint, message } => "Porkbun API returned an error for "@
            + endpoint + ": "@ + message,
    }
}

impl PorkbunClientError {
    /// The failure in words.
    pub fn text(&self) -> (r: String)
        ensures
            r@ == client_error_text(self@),
    {
        match self {
            PorkbunClientError::RequestFailed(text) => {
                let mut m = "HTTP request to Porkbun API failed: ".to_string();
                m.append(text.as_str());
                m
            },
            PorkbunClientError::ApiError { endpoint, message } => {
                let mut m = "Porkbun API returned an error for ".to_string();
                m.append(endpoint.as_str());
                m.append(": ");
                m.append(message.as_str());
                m
            },
        }
    }
}

fn auth_body(auth: &Auth) -> (r: Vec<(String, Json)>)
    ensures
        model::entries_view(r@) == auth_members(auth@),
{
    let mut out: Vec<(String, Json)> = Vec::new();
    out.push(string_member("apikey", auth.apikey.as_str()));
    out.push(string_member("secretapikey", auth.secretapikey.as_str()));
    assert(model::entries_view(out@) =~= auth_members(auth@));
    out
}

/// The credentials beside the record, in the one flat object that the API
/// expects.
fn authed_body(auth: &Auth, record: &RecordRequest) -> (r: Json)
    ensures
        r@ == JsonView::Object(auth_members(auth@) + record_members(record@)),
{
    broadcast use json::lemma_compound_view;

    let mut out = auth_body(auth);
    let ghost start = model::entries_view(out@);
    out.push(string_member("name", record.name.as_str()));
    out.push(string_member("type", record.record_type.as_str()));
    out.push(string_member("content", record.content.as_str()));
    out.push(string_member("ttl", record.ttl.as_str()));
    match &record.prio {
        Some(prio) => {
            out.push(string_member("prio", prio.as_str()));
        },
        None => {},
    }
    assert(start.len() == 2);
    assert(model::entries_view(out@).take(2) =~= start);
    assert(model::entries_view(out@) =~= auth_members(auth@) + record_members(record@));
    Json::Object(out)
}

impl PorkbunClient {
    /// A client for one account at one place.
    pub fn new(api_key: String, secret_api_key: String, base_url: String) -> (r: PorkbunClient)
        ensures
            r@ == (ClientView {
                base_url: base_url@,
                auth: AuthView { apikey: api_key@, secretapikey: secret_api_key@ },
            }),
    {
        PorkbunClient { base_url, auth: Auth { apikey: api_key, secretapikey: secret_api_key } }
    }

    /// The request for all DNS records of `domain`.
    pub fn retrieve(&self, domain: &str) -> (r: ApiCall)
        ensures
            r@ == retrieve_call(self@, domain@),
    {
        broadcast use json::lemma_compound_view;

        let mut url = self.base_url.clone();
        url.append("/dns/retrieve/");
        url.append(domain);
        ApiCall { url, body: Json::Object(auth_body(&self.auth)) }
    }

    /// The request for a new DNS record under `domain`.
    pub fn create(&self, domain: &str, record: &RecordRequest) -> (r: ApiCall)
        ensures
            r@ == create_call(self@, domain@, record@),
    {
        let mut url = self.base_url.clone();
        url.append("/dns/create/");
        url.append(domain);
        ApiCall { url, body: authed_body(&self.auth, record) }
    }

    /// The request for a change of the DNS record `id` under `domain`.
    pub fn edit(&self, domain: &str, id: &str, record: &RecordRequest) -> (r: ApiCall)
        ensures
            r@ == edit_call(self@, domain@, id@, record@),
    {
        let mut url = self.base_url.clone();
        url.append("/dns/edit/");
        url.append(domain);
        url.append("/");
        url.append(id);
        ApiCall { url, body: authed_body(&self.auth, record) }
    }

    /// The request for the removal of the DNS record `id` under `domain`.
    pub fn delete(&self, domain: &str, id: &str) -> (r: ApiCall)
        ensures
            r@ == delete_call(self@, domain@, id@),
    {
        broadcast use json::lemma_compound_view;

        let mut url = self.base_url.clone();
        url.append("/dns/delete/");
        url.append(domain);
        url.append("/");
        url.append(id);
        ApiCall { url, body: Json::Object(auth_body(&self.auth)) }
    }
}

fn message_or_empty(message: Option<String>) -> (r: String)
    ensures
        r@ == match model::opt_view(message) {
            Some(m) => m,
            None => Seq::empty(),
        },
{
    match message {
        Some(m) => m,
        None => String::new(),
    }
}

/// Tells success from failure in a reply from `url`.
pub fn check_status(resp: StatusResponse, url: String) -> (r: Result<(), PorkbunClientError>)
    ensures
        model::result_view(r) == checked(resp@, url@),
{
    if !same(resp.status.as_str(), "SUCCESS") {
        return Err(
            PorkbunClientError::ApiError { endpoint: url, message: message_or_empty(resp.message) },
        );
    }
    Ok(())
}

/// What came of a create, edit or delete request to `url`: the reply, or why
/// there is none.
pub fn status_outcome(reply: Result<StatusResponse, String>, url: String) -> (r: Result<
    (),
    PorkbunClientError,
>)
    ensures
        model::result_view(r) == status_result(model::result_view(reply), url@),
{
    match reply {
        Ok(resp) => check_status(resp, url),
        Err(text) => Err(PorkbunClientError::RequestFailed(text)),
    }
}

/// What came of a retrieve request to `url`: the reply, or why there is none.
pub fn retrieve_outcome(reply: Result<RetrieveResponse, String>, url: String) -> (r: Result<
    Vec<PorkbunRecord>,
    PorkbunClientError,
>)
    ensures
        match r {
            Ok(records) => retrieve_result(model::result_view(reply), url@) == Ok::<
                Seq<PorkbunRecordView>,
                ClientErrorView,
            >(model::views(records@)),
            Err(e) => retrieve_result(model::result_view(reply), url@) == Err::<
                Seq<PorkbunRecordView>,
                ClientErrorView,
            >(e@),
        },
{
    match reply {
        Ok(resp) => {
            if !same(resp.status.as_str(), "SUCCESS") {
                return Err(
                    PorkbunClientError::ApiError {
                        endpoint: url,
                        message: message_or_empty(resp.message),
                    },
                );
            }
            Ok(resp.records)
        },
        Err(text) => Err(PorkbunClientError::RequestFailed(text)),
    }
}

} // verus!
