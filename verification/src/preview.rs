//! The steps of a preview that need no network: what to fetch, and what to
//! make of what was fetched.

use crate::changes::category_diff;
use crate::diff::json_diff;
use crate::json::JsonValue;
use crate::models::{ConfigDiff, PreviewError, PreviewQuery, PreviewResponse, ProjectConfig};
use crate::outside::{parse_text, parsed_json};
use crate::text::{decimal, decimal_text};
use vstd::prelude::*;
use vstd::string::*;

verus! {

/// One pair of snapshots to fetch: the category, the word for it in a failure
/// message, and the path of the snapshot of each project.
#[derive(Debug)]
pub struct ConfigRequest {
    pub service: String,
    pub what: String,
    pub source_path: String,
    pub dest_path: String,
}

/// The model of a [`ConfigRequest`].
pub struct RequestModel {
    pub service: Seq<char>,
    pub what: Seq<char>,
    pub source_path: Seq<char>,
    pub dest_path: Seq<char>,
}

impl View for ConfigRequest {
    type V = RequestModel;

    open spec fn view(&self) -> RequestModel {
        RequestModel {
            service: self.service@,
            what: self.what@,
            source_path: self.source_path@,
            dest_path: self.dest_path@,
        }
    }
}

/// The models of a list of requests, in order.
pub open spec fn requests_view(requests: Seq<ConfigRequest>) -> Seq<RequestModel> {
    Seq::new(requests.len(), |i: int| requests[i]@)
}

/// The path of a project's snapshot: `/projects/`, the project, and the tail
/// of the category.
pub open spec fn project_path(id: Seq<char>, tail: Seq<char>) -> Seq<char> {
    "/projects/"@ + id + tail
}

/// The requests for one category: one where the category is asked for, none
/// where it is not.
pub open spec fn category_requests(
    flag: Option<bool>,
    source_id: Seq<char>,
    dest_id: Seq<char>,
    service: Seq<char>,
    what: Seq<char>,
    tail: Seq<char>,
) -> Seq<RequestModel> {
    if flag == Some(true) {
        seq![
            RequestModel {
                service,
                what,
                source_path: project_path(source_id, tail),
                dest_path: project_path(dest_id, tail),
            },
        ]
    } else {
        Seq::empty()
    }
}

/// The requests that a query asks for, in the order in which they are made.
pub open spec fn planned_requests(q: PreviewQuery) -> Seq<RequestModel> {
    category_requests(q.auth, q.source_id@, q.dest_id@, "Auth"@, "auth"@, "/config/auth"@)
        + category_requests(
        q.postgrest,
        q.source_id@,
        q.dest_id@,
        "Postgrest"@,
        "postgrest"@,
        "/postgrest"@,
    ) + category_requests(
        q.edge_functions,
        q.source_id@,
        q.dest_id@,
        "EdgeFunctions"@,
        "functions"@,
        "/functions"@,
    ) + category_requests(q.secrets, q.source_id@, q.dest_id@, "Secrets"@, "secrets"@, "/secrets"@)
        + category_requests(
        q.postgres,
        q.source_id@,
        q.dest_id@,
        "Postgres"@,
        "postgres"@,
        "/config/database/postgres"@,
    )
}

fn push_category(
    requests: &mut Vec<ConfigRequest>,
    flag: Option<bool>,
    params: &PreviewQuery,
    service: &str,
    what: &str,
    tail: &str,
)
    ensures
        requests_view(final(requests)@) == requests_view(old(requests)@) + category_requests(
            flag,
            params.source_id@,
            params.dest_id@,
            service@,
            what@,
            tail@,
        ),
{
    let wanted = match flag {
        Some(b) => b,
        None => false,
    };
    if wanted {
        let request = ConfigRequest {
            service: String::from_str(service),
            what: String::from_str(what),
            source_path: String::from_str("/projects/").concat(params.source_id.as_str()).concat(tail),
            dest_path: String::from_str("/projects/").concat(params.dest_id.as_str()).concat(tail),
        };
        requests.push(request);
    }
    assert(requests_view(requests@) =~= requests_view(old(requests)@) + category_requests(
        flag,
        params.source_id@,
        params.dest_id@,
        service@,
        what@,
        tail@,
    ));
}

/// Lists what a preview has to fetch: for each category that the query asks
/// for, the snapshot of the source project and that of the destination.
pub fn preview_requests(params: &PreviewQuery) -> (r: Vec<ConfigRequest>)
    ensures
        requests_view(r@) == planned_requests(*params),
{
    let mut requests: Vec<ConfigRequest> = Vec::new();
    assert(requests_view(requests@) =~= Seq::<RequestModel>::empty());
    push_category(&mut requests, params.auth, params, "Auth", "auth", "/config/auth");
    push_category(&mut requests, params.postgrest, params, "Postgrest", "postgrest", "/postgrest");
    push_category(
        &mut requests,
        params.edge_functions,
        params,
        "EdgeFunctions",
        "functions",
        "/functions",
    );
    push_category(&mut requests, params.secrets, params, "Secrets", "secrets", "/secrets");
    push_category(
        &mut requests,
        params.postgres,
        params,
        "Postgres",
        "postgres",
        "/config/database/postgres",
    );
    assert(requests_view(requests@) =~= planned_requests(*params));
    requests
}

/// The URL of a path on the management API.
pub fn mgmt_api_url(path: &str) -> (r: String)
    ensures
        r@ == "https://api.supabase.com/v1"@ + path@,
{
    String::from_str("https://api.supabase.com/v1").concat(path)
}

/// The value of the authorization header for an access token.
pub fn bearer_header(token: &str) -> (r: String)
    ensures
        r@ == "Bearer "@ + token@,
{
    String::from_str("Bearer ").concat(token)
}

/// The failure for a response of the management API whose status is no
/// success.
pub fn http_failure(status: u16, body: &str) -> (r: PreviewError)
    ensures
        r is ApiError,
        r->ApiError_0@ == "HTTP request failed with status "@ + decimal(status as nat) + ": "@
            + body@,
{
    let code = decimal_text(status as u64);
    PreviewError::ApiError(
        String::from_str("HTTP request failed with status ").concat(code.as_str()).concat(
            ": ",
        ).concat(body),
    )
}

/// Reads a snapshot. The text is accepted exactly when it is JSON, and the
/// value read has no object with a key twice.
pub fn parse_snapshot(text: &str) -> (r: Result<JsonValue, PreviewError>)
    ensures
        match r {
            Ok(v) => parsed_json(text@) == Some(v@) && v@.wf(),
            Err(e) => parsed_json(text@) is None && e is JsonError,
        },
{
    match parse_text(text) {
        Ok(v) => Ok(v),
        Err(e) => Err(PreviewError::from(e)),
    }
}

/// The model of what a comparison yields.
pub open spec fn result_view(result: Option<ProjectConfig>) -> Option<ConfigDiff> {
    match result {
        Some(config) => Some(config@),
        None => None,
    }
}

/// Reads the two snapshots of one category and compares them. Fails where
/// either snapshot is not JSON.
pub fn preview_entry(service: String, source_json: &str, dest_json: &str) -> (r: Result<
    Option<ProjectConfig>,
    PreviewError,
>)
    ensures
        match (parsed_json(source_json@), parsed_json(dest_json@)) {
            (Some(a), Some(b)) => r is Ok && result_view(r->Ok_0) == category_diff(service@, a, b),
            _ => r is Err && r->Err_0 is JsonError,
        },
{
    let source = match parse_snapshot(source_json) {
        Ok(v) => v,
        Err(e) => {
            return Err(e);
        },
    };
    let dest = match parse_snapshot(dest_json) {
        Ok(v) => v,
        Err(e) => {
            return Err(e);
        },
    };
    json_diff(service, source, dest)
}

/// The models of a list of configurations, in order.
pub open spec fn configs_view(configs: Seq<ProjectConfig>) -> Seq<ConfigDiff> {
    Seq::new(configs.len(), |i: int| configs[i]@)
}

impl PreviewResponse {
    /// A response without any configuration.
    pub fn new() -> (r: Self)
        ensures
            r.configs@.len() == 0,
    {
        PreviewResponse { configs: Vec::new() }
    }

    /// Takes in what the comparison of one category yielded: a result goes
    /// behind those that are there, and no result leaves the response as it
    /// is.
    pub fn add(&mut self, result: Option<ProjectConfig>)
        ensures
            configs_view(final(self).configs@) == match result {
                Some(config) => configs_view(old(self).configs@).push(config@),
                None => configs_view(old(self).configs@),
            },
    {
        if let Some(config) = result {
            self.configs.push(config);
            assert(configs_view(self.configs@) =~= configs_view(old(self).configs@).push(config@));
        }
    }
}

} // verus!
