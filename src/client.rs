//! The agent client: endpoint normalisation, the request that each agent
//! operation sends, and the uniform check of an agent's response.
use vstd::prelude::*;
use crate::text::{chars_of, contains, contains_spec, matches_at, occurs_at, views};

verus! {

/// Header sent on every agent request so that tunnels pass it straight through.
pub const NG_SKIP_WARN: &'static str = "ngrok-skip-browser-warning";

/// Value sent with the tunnel header.
pub const NG_SKIP_WARN_VALUE: &'static str = "easter egg here";

/// Base address of the account service.
pub const AUTH_ENDPOINT: &'static str = "https://tynkerbase-server.shuttleapp.rs";

/// Why an agent or account operation failed.
#[derive(Debug, Clone, PartialEq, Eq)]
pub enum ClientError {
    /// The node address is neither a URL nor a bare IPv4 address.
    InvalidEndpoint(String),
    /// The request could not be sent or timed out.
    Network(String),
    /// A request or response body could not be encoded or decoded.
    Serialization(String),
    /// The remote side answered with a non-success status.
    Remote { status: u16, body: String },
    /// The account service rejected the credentials.
    IncorrectCredentials,
}

/// HTTP method of a request.
#[derive(Debug, Clone, Copy, PartialEq, Eq, Structural)]
pub enum Method {
    Get,
    Post,
}

/// One outbound request, ready to be sent. Every agent request carries the
/// tunnel header; `api_key`, when present, goes in the credential header.
#[derive(Debug, Clone)]
pub struct AgentRequest {
    pub method: Method,
    pub url: String,
    /// Request timeout in seconds; `None` leaves the transport's default.
    pub timeout_secs: Option<u64>,
    pub api_key: Option<String>,
}

pub open spec fn is_address_char(c: char) -> bool {
    c == '.' || ('0' <= c && c <= '9')
}

/// A bare dotted-decimal address: digits and dots only, shorter than 16.
pub open spec fn is_dotted_address(s: Seq<char>) -> bool {
    s.len() < 16 && forall|i: int| 0 <= i < s.len() ==> is_address_char(#[trigger] s[i])
}

pub open spec fn is_letter(c: char) -> bool {
    ('a' <= c && c <= 'z') || ('A' <= c && c <= 'Z')
}

/// A character that may follow the first letter of a URI scheme.
pub open spec fn is_scheme_char(c: char) -> bool {
    is_letter(c) || ('0' <= c && c <= '9') || c == '+' || c == '-' || c == '.'
}

/// End of the run of scheme characters in `s` that starts at `i`.
pub open spec fn scheme_end(s: Seq<char>, i: int) -> int
    decreases s.len() - i,
{
    if 0 <= i < s.len() && is_scheme_char(s[i]) {
        scheme_end(s, i + 1)
    } else {
        i
    }
}

/// The address starts with a URI scheme: a letter, further scheme
/// characters, then `://` (as in `https://` or `http://`).
pub open spec fn has_scheme(s: Seq<char>) -> bool {
    s.len() > 0 && is_letter(s[0]) && occurs_at(s, "://"@, scheme_end(s, 0))
}

/// The URL that requests to a node at address `s` are built on, if any.
pub open spec fn normalized_endpoint(s: Seq<char>) -> Option<Seq<char>> {
    if has_scheme(s) {
        Some(s)
    } else if is_dotted_address(s) {
        Some("https://"@ + s + ":7462"@)
    } else {
        None
    }
}

/// `r` is the request with the given shape on the node at `endpoint`, or the
/// `InvalidEndpoint` error where the address cannot be normalised.
pub open spec fn is_agent_request(
    r: Result<AgentRequest, ClientError>,
    endpoint: Seq<char>,
    method: Method,
    path: Seq<char>,
    timeout_secs: u64,
    api_key: Option<Seq<char>>,
) -> bool {
    match normalized_endpoint(endpoint) {
        Some(base) => r matches Ok(q) && q.method == method && q.url@ == base + path
            && q.timeout_secs == Some(timeout_secs) && match api_key {
            Some(k) => q.api_key matches Some(qk) && qk@ == k,
            None => q.api_key is None,
        },
        None => r matches Err(ClientError::InvalidEndpoint(_)),
    }
}

fn is_letter_character(c: char) -> (r: bool)
    ensures
        r == is_letter(c),
{
    ('a' <= c && c <= 'z') || ('A' <= c && c <= 'Z')
}

fn is_scheme_character(c: char) -> (r: bool)
    ensures
        r == is_scheme_char(c),
{
    is_letter_character(c) || ('0' <= c && c <= '9') || c == '+' || c == '-' || c == '.'
}

/// Rewrites a node address into the URL that requests are built on: an
/// address that starts with a URI scheme (`https://...`) is kept, a bare dotted-decimal address
/// becomes `https://<addr>:7462`, and anything else is refused.
pub fn parse_endpoint(endpoint: &str) -> (r: Result<String, ClientError>)
    ensures
        match normalized_endpoint(endpoint@) {
            Some(u) => r matches Ok(s) && s@ == u,
            None => r matches Err(ClientError::InvalidEndpoint(e)) && e@ == endpoint@,
        },
{
    let cs = chars_of(endpoint);
    let n = cs.len();
    let mut e: usize = 0;
    while e < n && is_scheme_character(cs[e])
        invariant
            e <= n,
            n == cs@.len(),
            scheme_end(cs@, 0) == scheme_end(cs@, e as int),
        decreases n - e,
    {
        e = e + 1;
    }
    let separator = chars_of("://");
    if n > 0 && is_letter_character(cs[0]) && matches_at(&cs, &separator, e) {
        return Ok(String::from_str(endpoint));
    }
    if n >= 16 {
        return Err(ClientError::InvalidEndpoint(String::from_str(endpoint)));
    }
    let mut i: usize = 0;
    while i < n
        invariant
            n == cs@.len(),
            cs@ == endpoint@,
            !has_scheme(endpoint@),
            i <= n,
            forall|j: int| 0 <= j < i ==> is_address_char(#[trigger] cs@[j]),
        decreases n - i,
    {
        let c = cs[i];
        if !(c == '.' || ('0' <= c && c <= '9')) {
            assert(!is_address_char(endpoint@[i as int]));
            return Err(ClientError::InvalidEndpoint(String::from_str(endpoint)));
        }
        i = i + 1;
    }
    let mut url = String::from_str("https://");
    url.append(endpoint);
    url.append(":7462");
    Ok(url)
}

/// The request with the given shape on the node at `endpoint`.
fn agent_request(endpoint: &str, method: Method, path: String, timeout_secs: u64, api_key: Option<&str>) -> (r: Result<AgentRequest, ClientError>)
    ensures
        is_agent_request(r, endpoint@, method, path@, timeout_secs, match api_key {
            Some(k) => Some(k@),
            None => None,
        }),
{
    match parse_endpoint(endpoint) {
        Ok(base) => {
            let mut url = base;
            url.append(path.as_str());
            let key = match api_key {
                Some(k) => Some(String::from_str(k)),
                None => None,
            };
            Ok(AgentRequest { method, url, timeout_secs: Some(timeout_secs), api_key: key })
        },
        Err(e) => Err(e),
    }
}

/// `prefix`, then `name`, then `suffix`.
fn join3(prefix: &str, name: &str, suffix: &str) -> (r: String)
    ensures
        r@ == prefix@ + name@ + suffix@,
{
    let mut s = String::from_str(prefix);
    s.append(name);
    s.append(suffix);
    s
}

/// Liveness probe: the agent's root, without credential, 5 s.
pub fn ping_request(endpoint: &str) -> (r: Result<AgentRequest, ClientError>)
    ensures
        is_agent_request(r, endpoint@, Method::Get, ""@, 5, None),
{
    agent_request(endpoint, Method::Get, String::from_str(""), 5, None)
}

/// Identity of the agent: its root, with credential, 5 s.
pub fn get_id_request(endpoint: &str, tyb_key: &str) -> (r: Result<AgentRequest, ClientError>)
    ensures
        is_agent_request(r, endpoint@, Method::Get, ""@, 5, Some(tyb_key@)),
{
    agent_request(endpoint, Method::Get, String::from_str(""), 5, Some(tyb_key))
}

/// Creates the project `name` on the agent, 5 s.
pub fn create_proj_request(endpoint: &str, name: &str, tyb_key: &str) -> (r: Result<AgentRequest, ClientError>)
    ensures
        is_agent_request(r, endpoint@, Method::Get,
            "/files/proj/create-proj?name="@ + name@ + "&confirm=false"@, 5, Some(tyb_key@)),
{
    let path = join3("/files/proj/create-proj?name=", name, "&confirm=false");
    agent_request(endpoint, Method::Get, path, 5, Some(tyb_key))
}

/// Deletes the project `name` on the agent, 5 s.
pub fn delete_proj_request(endpoint: &str, name: &str, tyb_key: &str) -> (r: Result<AgentRequest, ClientError>)
    ensures
        is_agent_request(r, endpoint@, Method::Get,
            "/files/proj/delete-proj?name="@ + name@ + "&confirm=false"@, 5, Some(tyb_key@)),
{
    let path = join3("/files/proj/delete-proj?name=", name, "&confirm=false");
    agent_request(endpoint, Method::Get, path, 5, Some(tyb_key))
}

/// Uploads the project's files; the caller attaches the encoded file
/// collection as the body, 10 s.
pub fn transfer_files_request(endpoint: &str, name: &str, tyb_key: &str) -> (r: Result<AgentRequest, ClientError>)
    ensures
        is_agent_request(r, endpoint@, Method::Post,
            "/files/proj/add-files-to-proj?name="@ + name@, 10, Some(tyb_key@)),
{
    let path = join3("/files/proj/add-files-to-proj?name=", name, "");
    proof {
        assert(""@ =~= Seq::<char>::empty()) by {
            reveal_strlit("");
        }
        assert(path@ =~= "/files/proj/add-files-to-proj?name="@ + name@);
    }
    agent_request(endpoint, Method::Post, path, 10, Some(tyb_key))
}

/// Lists the agent's projects, 5 s.
pub fn list_projects_request(endpoint: &str, tyb_key: &str) -> (r: Result<AgentRequest, ClientError>)
    ensures
        is_agent_request(r, endpoint@, Method::Get, "/files/proj/list-projects"@, 5, Some(tyb_key@)),
{
    agent_request(endpoint, Method::Get, String::from_str("/files/proj/list-projects"), 5, Some(tyb_key))
}

/// Lists the agent's containers as a table, 5 s.
pub fn list_containers_request(endpoint: &str, tyb_key: &str) -> (r: Result<AgentRequest, ClientError>)
    ensures
        is_agent_request(r, endpoint@, Method::Get, "/docker/proj/list-containers"@, 5, Some(tyb_key@)),
{
    agent_request(endpoint, Method::Get, String::from_str("/docker/proj/list-containers"), 5, Some(tyb_key))
}

/// Lists the resource use of the agent's containers as a table, 5 s.
pub fn list_container_stats_request(endpoint: &str, tyb_key: &str) -> (r: Result<AgentRequest, ClientError>)
    ensures
        is_agent_request(r, endpoint@, Method::Get, "/docker/proj/list-container-stats"@, 5, Some(tyb_key@)),
{
    agent_request(endpoint, Method::Get, String::from_str("/docker/proj/list-container-stats"), 5, Some(tyb_key))
}

/// Builds the image of project `name`; builds take long, 2000 s.
pub fn build_img_request(endpoint: &str, name: &str, tyb_key: &str) -> (r: Result<AgentRequest, ClientError>)
    ensures
        is_agent_request(r, endpoint@, Method::Get, "/docker/proj/build-img?name="@ + name@, 2000, Some(tyb_key@)),
{
    let path = join3("/docker/proj/build-img?name=", name, "");
    proof {
        assert(""@ =~= Seq::<char>::empty()) by {
            reveal_strlit("");
        }
        assert(path@ =~= "/docker/proj/build-img?name="@ + name@);
    }
    agent_request(endpoint, Method::Get, path, 2000, Some(tyb_key))
}

/// Spawns the project's container; the caller attaches the encoded project
/// configuration as the body, 12 s.
pub fn spawn_container_request(endpoint: &str, tyb_key: &str) -> (r: Result<AgentRequest, ClientError>)
    ensures
        is_agent_request(r, endpoint@, Method::Post, "/docker/proj/spawn-container"@, 12, Some(tyb_key@)),
{
    agent_request(endpoint, Method::Post, String::from_str("/docker/proj/spawn-container"), 12, Some(tyb_key))
}

/// Removes every trace of project `name` from the agent, 12 s.
pub fn purge_project_request(endpoint: &str, name: &str, tyb_key: &str) -> (r: Result<AgentRequest, ClientError>)
    ensures
        is_agent_request(r, endpoint@, Method::Get, "/files/proj/purge-project?name="@ + name@, 12, Some(tyb_key@)),
{
    let path = join3("/files/proj/purge-project?name=", name, "");
    proof {
        assert(""@ =~= Seq::<char>::empty()) by {
            reveal_strlit("");
        }
        assert(path@ =~= "/files/proj/purge-project?name="@ + name@);
    }
    agent_request(endpoint, Method::Get, path, 12, Some(tyb_key))
}

/// Fetches the agent's diagnostics, 7 s.
pub fn get_diags_request(endpoint: &str, tyb_key: &str) -> (r: Result<AgentRequest, ClientError>)
    ensures
        is_agent_request(r, endpoint@, Method::Get, "/diags/get-diags"@, 7, Some(tyb_key@)),
{
    agent_request(endpoint, Method::Get, String::from_str("/diags/get-diags"), 7, Some(tyb_key))
}

/// `true` for a 2xx status.
pub open spec fn is_success_status(status: u16) -> bool {
    200 <= status < 300
}

/// Checks a response: a 2xx status passes; any other becomes a `Remote`
/// error with the status and the body text, or `NONE` where the body could
/// not be read.
pub fn validate_response(status: u16, body: Option<String>) -> (r: Result<(), ClientError>)
    ensures
        is_success_status(status) ==> r is Ok,
        !is_success_status(status) ==> (r matches Err(ClientError::Remote { status: s, body: b }) && s == status
            && match body {
            Some(t) => b@ == t@,
            None => b@ == "NONE"@,
        }),
{
    if 200 <= status && status < 300 {
        return Ok(());
    }
    let text = match body {
        Some(t) => t,
        None => String::from_str("NONE"),
    };
    Err(ClientError::Remote { status, body: text })
}

/// An account-service request on `path`, without timeout or credential.
pub open spec fn is_auth_request(r: AgentRequest, path: Seq<char>) -> bool {
    r.method == Method::Get && r.url@ == AUTH_ENDPOINT@ + path && r.timeout_secs is None
        && r.api_key is None
}

fn auth_request(path: String) -> (r: AgentRequest)
    ensures
        is_auth_request(r, path@),
{
    let mut url = String::from_str(AUTH_ENDPOINT);
    url.append(path.as_str());
    AgentRequest { method: Method::Get, url, timeout_secs: None, api_key: None }
}

/// `?email=<email>&pass_sha256=<hash>` after `path`.
pub open spec fn account_path(path: Seq<char>, email: Seq<char>, pass_sha256: Seq<char>) -> Seq<char> {
    path + "?email="@ + email + "&pass_sha256="@ + pass_sha256
}

fn account_path_of(path: &str, email: &str, pass_sha256: &str) -> (r: String)
    ensures
        r@ == account_path(path@, email@, pass_sha256@),
{
    let mut p = String::from_str(path);
    p.append("?email=");
    p.append(email);
    p.append("&pass_sha256=");
    p.append(pass_sha256);
    p
}

fn account_request(path: &str, email: &str, pass_sha256: &str) -> (r: AgentRequest)
    ensures
        is_auth_request(r, account_path(path@, email@, pass_sha256@)),
{
    auth_request(account_path_of(path, email, pass_sha256))
}

/// Logs in with the SHA-256 hex digest of the password; the reply is a salt.
pub fn login_request(email: &str, pass_sha256: &str) -> (r: AgentRequest)
    ensures
        is_auth_request(r, account_path("/auth/login"@, email@, pass_sha256@)),
{
    account_request("/auth/login", email, pass_sha256)
}

/// Creates an account.
pub fn create_account_request(email: &str, pass_sha256: &str) -> (r: AgentRequest)
    ensures
        is_auth_request(r, account_path("/auth/create-account"@, email@, pass_sha256@)),
{
    account_request("/auth/create-account", email, pass_sha256)
}

/// Deletes an account.
pub fn delete_account_request(email: &str, pass_sha256: &str) -> (r: AgentRequest)
    ensures
        is_auth_request(r, account_path("/auth/delete-account"@, email@, pass_sha256@)),
{
    account_request("/auth/delete-account", email, pass_sha256)
}

/// Fetches the nodes registered to the account.
pub fn get_nodes_request(email: &str, pass_sha256: &str) -> (r: AgentRequest)
    ensures
        is_auth_request(r, account_path("/ngrok/get-all-addrs"@, email@, pass_sha256@)),
{
    account_request("/ngrok/get-all-addrs", email, pass_sha256)
}

/// Detaches node `node_id` from the account.
pub fn remove_node_request(email: &str, pass_sha256: &str, node_id: &str) -> (r: AgentRequest)
    ensures
        is_auth_request(r, account_path("/ngrok/remove-addr"@, email@, pass_sha256@) + "&node_id="@ + node_id@),
{
    let mut p = account_path_of("/ngrok/remove-addr", email, pass_sha256);
    p.append("&node_id=");
    p.append(node_id);
    auth_request(p)
}

/// Reads the login reply: a reply that reports a wrong password is refused,
/// any other is the salt from which the API key is derived.
pub fn check_login_reply(reply: String) -> (r: Result<String, ClientError>)
    ensures
        contains_spec(reply@, "Incorrect password"@) ==> r matches Err(ClientError::IncorrectCredentials),
        !contains_spec(reply@, "Incorrect password"@) ==> (r matches Ok(s) && s@ == reply@),
{
    if contains(reply.as_str(), "Incorrect password") {
        Err(ClientError::IncorrectCredentials)
    } else {
        Ok(reply)
    }
}

/// What bincode's `deserialize` makes of `b` as a list of strings.
pub uninterp spec fn bincode_string_list(b: Seq<u8>) -> Option<Seq<Seq<char>>>;

/// Relies on `bincode::deserialize::<Vec<String>>` (bincode 1.x, fixed-width
/// integers, trailing bytes allowed): its result depends on the bytes alone.
#[verifier::external_body]
fn bincode_strings(b: &Vec<u8>) -> (r: Option<Vec<String>>)
    ensures
        match r {
            Some(v) => bincode_string_list(b@) == Some(views(v@)),
            None => bincode_string_list(b@) is None,
        },
{
    bincode::deserialize::<Vec<String>>(b.as_slice()).ok()
}

/// Decodes the body of a project listing: the project names, or a
/// `Serialization` error where the body is not a bincode list of strings.
pub fn decode_project_list(body: &Vec<u8>) -> (r: Result<Vec<String>, ClientError>)
    ensures
        match bincode_string_list(body@) {
            Some(names) => r matches Ok(v) && views(v@) == names,
            None => r matches Err(ClientError::Serialization(_)),
        },
{
    match bincode_strings(body) {
        Some(v) => Ok(v),
        None => Err(ClientError::Serialization(String::from_str("project list is not a bincode list of strings"))),
    }
}

/// The requests of the composite "deploy project" call, to be sent in order
/// and stopping at the first failure: purge any earlier project of the same
/// name, create it afresh, then upload its files.
pub fn deploy_proj_requests(endpoint: &str, name: &str, tyb_key: &str) -> (r: Result<Vec<AgentRequest>, ClientError>)
    ensures
        normalized_endpoint(endpoint@) is None ==> r matches Err(ClientError::InvalidEndpoint(_)),
        normalized_endpoint(endpoint@) is Some ==> (r matches Ok(v) && v@.len() == 3
            && is_agent_request(Ok(v@[0]), endpoint@, Method::Get, "/files/proj/purge-project?name="@ + name@, 12, Some(tyb_key@))
            && is_agent_request(Ok(v@[1]), endpoint@, Method::Get,
                "/files/proj/create-proj?name="@ + name@ + "&confirm=false"@, 5, Some(tyb_key@))
            && is_agent_request(Ok(v@[2]), endpoint@, Method::Post,
                "/files/proj/add-files-to-proj?name="@ + name@, 10, Some(tyb_key@))),
{
    let purge = purge_project_request(endpoint, name, tyb_key);
    let create = create_proj_request(endpoint, name, tyb_key);
    let transfer = transfer_files_request(endpoint, name, tyb_key);
    match (purge, create, transfer) {
        (Ok(p), Ok(c), Ok(t)) => {
            let mut v: Vec<AgentRequest> = Vec::new();
            v.push(p);
            v.push(c);
            v.push(t);
            Ok(v)
        },
        (Err(e), _, _) => Err(e),
        (_, Err(e), _) => Err(e),
        (_, _, Err(e)) => Err(e),
    }
}

/// What comes next in a run of requests sent one after another, each only
/// after the previous one succeeded.
#[derive(Debug, Clone, Copy, PartialEq, Eq, Structural)]
pub enum SequenceStep {
    /// Send the request at this index.
    Send(usize),
    /// Every request succeeded.
    Done,
    /// The request at this index failed; the run stops there.
    Failed(usize),
}

/// Index of the first failed outcome at or after `from`.
pub open spec fn first_failure(o: Seq<Result<(), ClientError>>, from: int) -> Option<int>
    decreases o.len() - from,
{
    if from < 0 || from >= o.len() {
        None
    } else if o[from] is Err {
        Some(from)
    } else {
        first_failure(o, from + 1)
    }
}

/// Decides the next step of a run of `total` requests from the outcomes of
/// those sent so far: stop at the first failure, finish once all succeeded,
/// else send the next one.
pub fn sequence_step(total: usize, outcomes: &Vec<Result<(), ClientError>>) -> (r: SequenceStep)
    ensures
        first_failure(outcomes@, 0) matches Some(i) ==> r == SequenceStep::Failed(i as usize),
        first_failure(outcomes@, 0) is None && outcomes@.len() >= total ==> r == SequenceStep::Done,
        first_failure(outcomes@, 0) is None && outcomes@.len() < total ==> r == SequenceStep::Send(
            outcomes@.len() as usize,
        ),
{
    let n = outcomes.len();
    let mut i: usize = 0;
    while i < n
        invariant
            n == outcomes@.len(),
            i <= n,
            first_failure(outcomes@, 0) == first_failure(outcomes@, i as int),
        decreases n - i,
    {
        if outcomes[i].is_err() {
            return SequenceStep::Failed(i);
        }
        i = i + 1;
    }
    if n >= total {
        SequenceStep::Done
    } else {
        SequenceStep::Send(n)
    }
}

} // verus!
