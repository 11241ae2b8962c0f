//! Verified resolution of the CI context for merged change requests.
//!
//! A CI job that runs on a merge result has to find out which change request
//! produced the commit it was started for, and which commit in history is the
//! effective rewrite target when the request was squashed.  The resolution is
//! a linear sequence of steps: discover the provider environment, build one
//! bounded API query, match the returned merge records against the current
//! commit, disambiguate squash merges, and plan the workspace clone and
//! fetch commands.  Every decision along that path lives here and is
//! verified; the unverified shell only reads the environment, sends the one
//! request and runs the planned commands.

use vstd::prelude::*;
use vstd::string::StringExecFns;

use crate::error::CiError;
use crate::text::{dec_str_spec, str_eq, strip_prefix_all, strip_prefix_all_len, u64_to_decimal};

verus! {

/// The credential the provider environment supplies: a job-scoped token is
/// preferred, a personal access token is the fallback.  The credential kind
/// fixes both the API header name and the username embedded in clone URLs.
#[derive(Debug, Clone)]
pub enum Credential {
    JobToken(String),
    PersonalToken(String),
}

/// The token carried by a credential.
pub open spec fn credential_token_spec(c: Credential) -> Seq<char> {
    match c {
        Credential::JobToken(t) => t@,
        Credential::PersonalToken(t) => t@,
    }
}

/// The API header that authenticates a request made with `c`.
pub open spec fn header_name_spec(c: Credential) -> Seq<char> {
    match c {
        Credential::JobToken(_) => "JOB-TOKEN"@,
        Credential::PersonalToken(_) => "PRIVATE-TOKEN"@,
    }
}

/// The username embedded in a credential-carrying clone URL.
pub open spec fn url_username_spec(c: Credential) -> Seq<char> {
    match c {
        Credential::JobToken(_) => "gitlab-ci-token"@,
        Credential::PersonalToken(_) => "oauth2"@,
    }
}

/// The provider environment a resolution needs, fully discovered.
#[derive(Debug, Clone)]
pub struct GitlabConfig {
    pub api_url: String,
    pub project_id: String,
    pub commit_sha: String,
    pub server_url: String,
    pub project_path: String,
    pub credential: Credential,
}

/// Environment discovery: every value is required, and one of the two token
/// forms must be present, the job token taking precedence.  A missing value
/// is a configuration error naming the variable, and resolution stops before
/// any network activity: a request can only be built from the returned
/// config.
pub fn gitlab_config_from_env(
    api_url: Option<String>,
    project_id: Option<String>,
    commit_sha: Option<String>,
    server_url: Option<String>,
    project_path: Option<String>,
    job_token: Option<String>,
    personal_token: Option<String>,
) -> (r: Result<GitlabConfig, CiError>)
    ensures
        r is Ok <==> (api_url is Some && project_id is Some && commit_sha is Some
            && server_url is Some && project_path is Some && (job_token is Some
            || personal_token is Some)),
        r is Ok ==> {
            let c = r->Ok_0;
            &&& c.api_url == api_url->0
            &&& c.project_id == project_id->0
            &&& c.commit_sha == commit_sha->0
            &&& c.server_url == server_url->0
            &&& c.project_path == project_path->0
            &&& (job_token is Some ==> c.credential == Credential::JobToken(job_token->0))
            &&& (job_token is None ==> c.credential == Credential::PersonalToken(
                personal_token->0,
            ))
        },
        r is Err ==> r->Err_0 is ConfigurationError,
        api_url is None ==> config_error_names(r, "CI_API_V4_URL environment variable not set"@),
        api_url is Some && project_id is None ==> config_error_names(
            r,
            "CI_PROJECT_ID environment variable not set"@,
        ),
        api_url is Some && project_id is Some && commit_sha is None ==> config_error_names(
            r,
            "CI_COMMIT_SHA environment variable not set"@,
        ),
        api_url is Some && project_id is Some && commit_sha is Some && server_url is None
            ==> config_error_names(r, "CI_SERVER_URL environment variable not set"@),
        api_url is Some && project_id is Some && commit_sha is Some && server_url is Some
            && project_path is None ==> config_error_names(
            r,
            "CI_PROJECT_PATH environment variable not set"@,
        ),
        api_url is Some && project_id is Some && commit_sha is Some && server_url is Some
            && project_path is Some && job_token is None && personal_token is None
            ==> config_error_names(
            r,
            "Neither CI_JOB_TOKEN nor GITLAB_TOKEN environment variable is set"@,
        ),
{
    let api_url = match api_url {
        Some(v) => v,
        None => {
            return Err(
                CiError::ConfigurationError(
                    String::from_str("CI_API_V4_URL environment variable not set"),
                ),
            );
        },
    };
    let project_id = match project_id {
        Some(v) => v,
        None => {
            return Err(
                CiError::ConfigurationError(
                    String::from_str("CI_PROJECT_ID environment variable not set"),
                ),
            );
        },
    };
    let commit_sha = match commit_sha {
        Some(v) => v,
        None => {
            return Err(
                CiError::ConfigurationError(
                    String::from_str("CI_COMMIT_SHA environment variable not set"),
                ),
            );
        },
    };
    let server_url = match server_url {
        Some(v) => v,
        None => {
            return Err(
                CiError::ConfigurationError(
                    String::from_str("CI_SERVER_URL environment variable not set"),
                ),
            );
        },
    };
    let project_path = match project_path {
        Some(v) => v,
        None => {
            return Err(
                CiError::ConfigurationError(
                    String::from_str("CI_PROJECT_PATH environment variable not set"),
                ),
            );
        },
    };
    let credential = match job_token {
        Some(t) => Credential::JobToken(t),
        None => match personal_token {
            Some(t) => Credential::PersonalToken(t),
            None => {
                return Err(
                    CiError::ConfigurationError(
                        String::from_str(
                            "Neither CI_JOB_TOKEN nor GITLAB_TOKEN environment variable is set",
                        ),
                    ),
                );
            },
        },
    };
    Ok(
        GitlabConfig {
            api_url,
            project_id,
            commit_sha,
            server_url,
            project_path,
            credential,
        },
    )
}

/// Whether `r` is a configuration error carrying exactly the message `msg`.
pub open spec fn config_error_names(r: Result<GitlabConfig, CiError>, msg: Seq<char>) -> bool {
    &&& r is Err
    &&& r->Err_0 matches CiError::ConfigurationError(m) && m@ == msg
}

/// The bounded merge-record query for one project: recently merged change
/// requests, newest first, one page.
pub open spec fn endpoint_spec(api_url: Seq<char>, project_id: Seq<char>, cutoff: Seq<char>)
    -> Seq<char> {
    api_url + "/projects/"@ + project_id + "/merge_requests?state=merged&updated_after="@ + cutoff
        + "&order_by=updated_at&sort=desc&per_page=100"@
}

/// Build the merge-record query URL for a given look-back cutoff timestamp.
pub fn merge_requests_endpoint(config: &GitlabConfig, cutoff: &str) -> (r: String)
    ensures
        r@ == endpoint_spec(config.api_url@, config.project_id@, cutoff@),
{
    let mut s = config.api_url.clone();
    s.append("/projects/");
    s.append(config.project_id.as_str());
    s.append("/merge_requests?state=merged&updated_after=");
    s.append(cutoff);
    s.append("&order_by=updated_at&sort=desc&per_page=100");
    s
}

/// Relies on chrono's `Utc::now`, `TimeDelta::minutes` and `DateTime`
/// formatting: the moment `minutes` minutes before now, rendered as an
/// ISO-8601 UTC timestamp.  The result depends on the clock, so nothing is
/// claimed of it.
#[verifier::external_body]
fn lookback_cutoff_utc(minutes: i64) -> (r: String)
    requires
        0 <= minutes <= 527040,
{
    let cutoff = chrono::Utc::now() - chrono::Duration::minutes(minutes);
    cutoff.format("%Y-%m-%dT%H:%M:%SZ").to_string()
}

/// One HTTP request the resolution asks the shell to perform: a GET of
/// `url` carrying the credential header and a hard timeout.
#[derive(Debug, Clone)]
pub struct ApiRequest {
    pub url: String,
    pub header_name: String,
    pub header_value: String,
    pub user_agent: String,
    pub timeout_secs: u64,
}

/// The look-back window for the candidate query, in minutes: generous
/// against queue delay and clock skew between the merge and the CI trigger.
pub const LOOKBACK_MINUTES: i64 = 15;

/// The candidate query: one request for the merge records updated within the
/// look-back window, authenticated with the discovered credential.  The
/// cutoff timestamp depends on the clock, so the URL is pinned up to it.
pub fn merge_requests_request(config: &GitlabConfig) -> (r: ApiRequest)
    ensures
        exists|cutoff: Seq<char>|
            r.url@ == endpoint_spec(config.api_url@, config.project_id@, cutoff),
        r.header_name@ == header_name_spec(config.credential),
        r.header_value@ == credential_token_spec(config.credential),
        r.user_agent@ == "git-ai/0.1.0"@,
        r.timeout_secs == 30,
{
    let cutoff = lookback_cutoff_utc(LOOKBACK_MINUTES);
    let url = merge_requests_endpoint(config, cutoff.as_str());
    proof {
        assert(url@ == endpoint_spec(config.api_url@, config.project_id@, cutoff@));
    }
    let (header_name, header_value) = match &config.credential {
        Credential::JobToken(t) => (String::from_str("JOB-TOKEN"), t.clone()),
        Credential::PersonalToken(t) => (String::from_str("PRIVATE-TOKEN"), t.clone()),
    };
    ApiRequest {
        url,
        header_name,
        header_value,
        user_agent: String::from_str("git-ai/0.1.0"),
        timeout_secs: 30,
    }
}

/// Gate on the API answer: only a 200 hands its body on; anything else is a
/// network error carrying the status and body for diagnosis.
pub fn check_response(status: u16, body: String) -> (r: Result<String, CiError>)
    ensures
        status == 200 <==> r is Ok,
        status == 200 ==> r->Ok_0 == body,
        status != 200 ==> (r->Err_0 matches CiError::NetworkError { status: s, body: b } && s
            == status && b == body),
{
    if status == 200 {
        Ok(body)
    } else {
        Err(CiError::NetworkError { status, body })
    }
}

/// One merge record as the provider reports it: identifiers of the change
/// request, its branches, its head commit, and, when present, the merge and
/// squash result commits.
#[derive(Debug, Clone)]
pub struct MergeRecord {
    pub iid: u64,
    pub title: Option<String>,
    pub source_branch: String,
    pub target_branch: String,
    pub head_sha: String,
    pub merge_commit_sha: Option<String>,
    pub squash_commit_sha: Option<String>,
    pub squash: Option<bool>,
}

/// Whether `r` produced the commit `sha`, either as its merge commit or as
/// its squash commit.
pub open spec fn record_matches(r: MergeRecord, sha: Seq<char>) -> bool {
    ||| (r.merge_commit_sha is Some && r.merge_commit_sha->0@ == sha)
    ||| (r.squash_commit_sha is Some && r.squash_commit_sha->0@ == sha)
}

/// The first record in `rs` that matches `sha`, if any.
pub open spec fn first_match_spec(rs: Seq<MergeRecord>, sha: Seq<char>) -> Option<MergeRecord>
    decreases rs.len(),
{
    if rs.len() == 0 {
        None
    } else if record_matches(rs[0], sha) {
        Some(rs[0])
    } else {
        first_match_spec(rs.drop_first(), sha)
    }
}

/// There is no match exactly when no record matches.
pub proof fn lemma_first_match_none(rs: Seq<MergeRecord>, sha: Seq<char>)
    ensures
        first_match_spec(rs, sha) is None <==> (forall|j: int|
            0 <= j < rs.len() ==> !record_matches(rs[j], sha)),
    decreases rs.len(),
{
    if rs.len() > 0 && !record_matches(rs[0], sha) {
        lemma_first_match_none(rs.drop_first(), sha);
        assert forall|j: int| 1 <= j < rs.len() implies rs.drop_first()[j - 1] == rs[j] by {}
    }
}

fn option_sha_matches(o: &Option<String>, sha: &String) -> (r: bool)
    ensures
        r == (o is Some && o->0@ == sha@),
{
    match o {
        Some(s) => str_eq(s.as_str(), sha.as_str()),
        None => false,
    }
}

/// Find the index of the first merge record whose merge commit or squash
/// commit is the current commit.  Absence of a match is a defined outcome,
/// not an error: most CI runs are not merge-triggered.
pub fn find_matching_record(records: &Vec<MergeRecord>, commit_sha: &String) -> (r: Option<usize>)
    ensures
        match r {
            Some(i) => i < records@.len() && first_match_spec(records@, commit_sha@) == Some(
                records@[i as int],
            ) && record_matches(records@[i as int], commit_sha@),
            None => first_match_spec(records@, commit_sha@) is None,
        },
{
    let n = records.len();
    let mut i: usize = 0;
    proof {
        assert(records@.subrange(0, n as int) =~= records@);
    }
    while i < n
        invariant
            i <= n,
            n == records@.len(),
            first_match_spec(records@, commit_sha@) == first_match_spec(
                records@.subrange(i as int, n as int),
                commit_sha@,
            ),
        decreases n - i,
    {
        let ghost rest = records@.subrange(i as int, n as int);
        proof {
            assert(rest[0] == records@[i as int]);
            assert(rest.drop_first() =~= records@.subrange(i + 1, n as int));
        }
        let m = &records[i];
        if option_sha_matches(&m.merge_commit_sha, commit_sha) || option_sha_matches(
            &m.squash_commit_sha,
            commit_sha,
        ) {
            return Some(i);
        }
        i = i + 1;
    }
    proof {
        assert(records@.subrange(n as int, n as int) =~= Seq::<MergeRecord>::empty());
    }
    None
}

/// The commit that actually carries the merged content.  A squash merge's
/// squash commit is the rewrite target even when the match happened on the
/// merge commit; without a squash commit the matched commit itself is the
/// target.
pub open spec fn eff_sha_spec(m: MergeRecord, sha: Seq<char>) -> Seq<char> {
    if m.squash_commit_sha is Some && m.squash_commit_sha->0@ == sha {
        sha
    } else if m.squash_commit_sha is Some {
        m.squash_commit_sha->0@
    } else {
        sha
    }
}

/// Squash disambiguation: a record carrying both a merge commit and a squash
/// commit, matched on its merge commit, rewrites to the squash commit — the
/// merge commit is not the content-bearing one.
pub proof fn lemma_squash_disambiguation(m: MergeRecord, sha: Seq<char>)
    requires
        m.merge_commit_sha is Some,
        m.merge_commit_sha->0@ == sha,
        m.squash_commit_sha is Some,
    ensures
        eff_sha_spec(m, sha) == m.squash_commit_sha->0@,
{
}

/// Determine which commit to use as the rewrite target for `m`, matched
/// against the current commit `commit_sha`.
pub fn effective_rewrite_sha(m: &MergeRecord, commit_sha: &String) -> (r: String)
    ensures
        r@ == eff_sha_spec(*m, commit_sha@),
{
    if option_sha_matches(&m.squash_commit_sha, commit_sha) {
        commit_sha.clone()
    } else {
        match &m.squash_commit_sha {
            Some(s) => s.clone(),
            None => commit_sha.clone(),
        }
    }
}

/// Whether `s` begins with the five characters `https`.
pub open spec fn starts_with_https(s: Seq<char>) -> bool {
    &&& s.len() >= 5
    &&& s[0] == 'h'
    &&& s[1] == 't'
    &&& s[2] == 't'
    &&& s[3] == 'p'
    &&& s[4] == 's'
}

/// The scheme embedded in a credential-carrying clone URL.
pub open spec fn scheme_spec(server_url: Seq<char>) -> Seq<char> {
    if starts_with_https(server_url) {
        "https"@
    } else {
        "http"@
    }
}

/// The server URL with its scheme prefixes removed.
pub open spec fn host_spec(server_url: Seq<char>) -> Seq<char> {
    strip_prefix_all(strip_prefix_all(server_url, "https://"@), "http://"@)
}

/// The clone URL with the credential embedded: the server's scheme, the
/// username the credential kind dictates, the token, the host, and the
/// project path with a `.git` suffix.
pub open spec fn clone_url_spec(
    server_url: Seq<char>,
    project_path: Seq<char>,
    cred: Credential,
) -> Seq<char> {
    scheme_spec(server_url) + "://"@ + url_username_spec(cred) + ":"@ + credential_token_spec(cred)
        + "@"@ + host_spec(server_url) + "/"@ + project_path + ".git"@
}

/// Build the credential-embedded URL used for the workspace clone and the
/// merge-request fetch.
pub fn authenticated_clone_url(
    server_url: &String,
    project_path: &String,
    cred: &Credential,
) -> (r: String)
    ensures
        r@ == clone_url_spec(server_url@, project_path@, *cred),
{
    let s = server_url.as_str();
    let n = s.unicode_len();
    let is_https = n >= 5 && s.get_char(0) == 'h' && s.get_char(1) == 't' && s.get_char(2) == 't'
        && s.get_char(3) == 'p' && s.get_char(4) == 's';
    let scheme: &str = if is_https {
        "https"
    } else {
        "http"
    };
    proof {
        reveal_strlit("https://");
        reveal_strlit("http://");
        assert(s@.skip(0) =~= s@);
    }
    let k1 = strip_prefix_all_len(s, 0, "https://");
    let k2 = strip_prefix_all_len(s, k1, "http://");
    let host = s.substring_char(k2, n);
    proof {
        assert(host@ =~= s@.skip(k2 as int));
    }
    let username: &str = match cred {
        Credential::JobToken(_) => "gitlab-ci-token",
        Credential::PersonalToken(_) => "oauth2",
    };
    let token: &String = match cred {
        Credential::JobToken(t) => t,
        Credential::PersonalToken(t) => t,
    };
    let mut url = String::from_str(scheme);
    url.append("://");
    url.append(username);
    url.append(":");
    url.append(token.as_str());
    url.append("@");
    url.append(host);
    url.append("/");
    url.append(project_path.as_str());
    url.append(".git");
    url
}

/// The provider-maintained ref that keeps a merge request's commits
/// reachable after its source branch is deleted, fetched into a locally
/// namespaced ref.
pub open spec fn mr_refspec_spec(iid: int) -> Seq<char> {
    "refs/merge-requests/"@ + dec_str_spec(iid) + "/head:refs/gitlab/mr/"@ + dec_str_spec(iid)
}

/// Render the merge-request fetch refspec for change request `iid`.
pub fn mr_refspec(iid: u64) -> (r: String)
    ensures
        r@ == mr_refspec_spec(iid as int),
{
    let d = u64_to_decimal(iid);
    let mut s = String::from_str("refs/merge-requests/");
    s.append(d.as_str());
    s.append("/head:refs/gitlab/mr/");
    s.append(d.as_str());
    s
}

/// The argument vector that clones `url`'s target branch into `dir`.
pub fn clone_command_args(target_branch: &String, url: &String, dir: &String) -> (r: Vec<String>)
    ensures
        r@.len() == 5,
        r@[0]@ == "clone"@,
        r@[1]@ == "--branch"@,
        r@[2]@ == target_branch@,
        r@[3]@ == url@,
        r@[4]@ == dir@,
{
    let mut v: Vec<String> = Vec::new();
    v.push(String::from_str("clone"));
    v.push(String::from_str("--branch"));
    v.push(target_branch.clone());
    v.push(url.clone());
    v.push(dir.clone());
    v
}

/// The argument vector that fetches the merge-request ref of change request
/// `iid` into the workspace at `dir`.
pub fn fetch_command_args(dir: &String, url: &String, iid: u64) -> (r: Vec<String>)
    ensures
        r@.len() == 5,
        r@[0]@ == "-C"@,
        r@[1]@ == dir@,
        r@[2]@ == "fetch"@,
        r@[3]@ == url@,
        r@[4]@ == mr_refspec_spec(iid as int),
{
    let mut v: Vec<String> = Vec::new();
    v.push(String::from_str("-C"));
    v.push(dir.clone());
    v.push(String::from_str("fetch"));
    v.push(url.clone());
    v.push(mr_refspec(iid));
    v
}

/// The merge event a resolution describes: the effective rewrite target, the
/// head branch and commit, and the base branch.  The base commit may be
/// empty: the provider's list API does not expose it cheaply, a documented
/// gap rather than an error.
#[derive(Debug, Clone, PartialEq, Eq)]
pub enum CiEvent {
    Merge {
        merge_commit_sha: String,
        head_ref: String,
        head_sha: String,
        base_ref: String,
        base_sha: String,
    },
}

/// The fields of a merge event, as sequences, in declaration order.
pub open spec fn event_view(e: CiEvent) -> (Seq<char>, Seq<char>, Seq<char>, Seq<char>, Seq<char>) {
    match e {
        CiEvent::Merge { merge_commit_sha, head_ref, head_sha, base_ref, base_sha } => (
            merge_commit_sha@,
            head_ref@,
            head_sha@,
            base_ref@,
            base_sha@,
        ),
    }
}

/// A resolved CI context: the workspace the shell is to materialize and the
/// merge event that workspace serves.
#[derive(Debug, Clone, PartialEq, Eq)]
pub struct CiContext {
    pub clone_dir: String,
    pub event: CiEvent,
}

/// The merge event resolved from `records` for the commit `commit_sha`:
/// absent when no record matches, otherwise determined by the first matching
/// record and squash disambiguation.
pub open spec fn resolved_event_spec(records: Seq<MergeRecord>, commit_sha: Seq<char>) -> Option<
    (Seq<char>, Seq<char>, Seq<char>, Seq<char>, Seq<char>),
> {
    match first_match_spec(records, commit_sha) {
        None => None,
        Some(m) => Some(
            (eff_sha_spec(m, commit_sha), m.source_branch@, m.head_sha@, m.target_branch@, Seq::<
                char,
            >::empty()),
        ),
    }
}

/// Resolution is a pure function of the provider's records and the current
/// commit: two resolutions against the same state yield the same event.
pub proof fn lemma_resolution_idempotent(
    records: Seq<MergeRecord>,
    commit_sha: Seq<char>,
    e1: Option<(Seq<char>, Seq<char>, Seq<char>, Seq<char>, Seq<char>)>,
    e2: Option<(Seq<char>, Seq<char>, Seq<char>, Seq<char>, Seq<char>)>,
)
    requires
        e1 == resolved_event_spec(records, commit_sha),
        e2 == resolved_event_spec(records, commit_sha),
    ensures
        e1 == e2,
{
}

/// Everything the shell must do once a record has matched: the context to
/// emit and the two command lines that materialize the workspace.
#[derive(Debug, Clone)]
pub struct MergePlan {
    pub context: CiContext,
    pub clone_args: Vec<String>,
    pub fetch_args: Vec<String>,
}

/// The fixed workspace directory the plan clones into.  Concurrent
/// resolutions in one working directory must be serialized by the caller.
pub fn clone_workspace_dir() -> (r: String)
    ensures
        r@ == "git-ai-ci-clone"@,
{
    String::from_str("git-ai-ci-clone")
}

/// Match the current commit against the fetched merge records and, when one
/// matches, plan the workspace materialization and emit the context.  No
/// match is a defined "no context" outcome, not an error.
pub fn plan_from_records(config: &GitlabConfig, records: &Vec<MergeRecord>) -> (r: Option<
    MergePlan,
>)
    ensures
        r is None <==> resolved_event_spec(records@, config.commit_sha@) is None,
        r is None <==> (forall|j: int|
            0 <= j < records@.len() ==> !record_matches(records@[j], config.commit_sha@)),
        r is Some ==> Some(event_view(r->0.context.event)) == resolved_event_spec(
            records@,
            config.commit_sha@,
        ),
        r is Some ==> r->0.context.clone_dir@ == "git-ai-ci-clone"@,
        r is Some ==> {
            let m = first_match_spec(records@, config.commit_sha@)->0;
            let url = clone_url_spec(config.server_url@, config.project_path@, config.credential);
            &&& r->0.clone_args@.len() == 5
            &&& r->0.clone_args@[0]@ == "clone"@
            &&& r->0.clone_args@[1]@ == "--branch"@
            &&& r->0.clone_args@[2]@ == m.target_branch@
            &&& r->0.clone_args@[3]@ == url
            &&& r->0.clone_args@[4]@ == "git-ai-ci-clone"@
            &&& r->0.fetch_args@.len() == 5
            &&& r->0.fetch_args@[0]@ == "-C"@
            &&& r->0.fetch_args@[1]@ == "git-ai-ci-clone"@
            &&& r->0.fetch_args@[2]@ == "fetch"@
            &&& r->0.fetch_args@[3]@ == url
            &&& r->0.fetch_args@[4]@ == mr_refspec_spec(m.iid as int)
        },
{
    proof {
        lemma_first_match_none(records@, config.commit_sha@);
    }
    match find_matching_record(records, &config.commit_sha) {
        None => None,
        Some(i) => {
            let m = &records[i];
            let effective_sha = effective_rewrite_sha(m, &config.commit_sha);
            let url = authenticated_clone_url(
                &config.server_url,
                &config.project_path,
                &config.credential,
            );
            let dir = clone_workspace_dir();
            let clone_args = clone_command_args(&m.target_branch, &url, &dir);
            let fetch_args = fetch_command_args(&dir, &url, m.iid);
            let event = CiEvent::Merge {
                merge_commit_sha: effective_sha,
                head_ref: m.source_branch.clone(),
                head_sha: m.head_sha.clone(),
                base_ref: m.target_branch.clone(),
                base_sha: String::new(),
            };
            Some(MergePlan { context: CiContext { clone_dir: dir, event }, clone_args, fetch_args })
        },
    }
}

} // verus!
