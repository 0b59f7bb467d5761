//! Everything a request is made of before it goes on the wire: the API origin,
//! the path, and the query parameters, all validated.

use vstd::prelude::*;

use crate::amount::{usdc_outcome, usdc_to_base_units};
use crate::error::TaskmarketError;
use crate::models::BrowseTasksArgs;
use crate::text::{chars_of, decimal, decimal_string, str_eq, string_views, trim, trim_str};
use crate::validate::{bounded, bounded_message, is_evm_address, is_path_safe, validate_address, validate_path_id};

verus! {

/// TaskMarket's production API origin.
pub const DEFAULT_BASE_URL: &'static str = "https://api.taskmarket.dev";

/// A read-only request: a path below the API origin and its query parameters.
#[derive(Clone, Debug, PartialEq, Eq)]
pub struct ApiRequest {
    /// Path below the API origin, starting with `/api/`.
    pub path: String,
    /// Query parameters, in the order they are sent.
    pub query: Vec<(String, String)>,
}

/// Query parameters by their characters.
pub open spec fn pairs_view(q: Seq<(String, String)>) -> Seq<(Seq<char>, Seq<char>)> {
    q.map_values(|p: (String, String)| (p.0@, p.1@))
}

/// `s` without its trailing `/` characters.
pub open spec fn strip_trailing_slashes(s: Seq<char>) -> Seq<char>
    decreases s.len(),
{
    if s.len() > 0 && s.last() == '/' {
        strip_trailing_slashes(s.drop_last())
    } else {
        s
    }
}

/// What `reqwest::Url::parse` makes of `input`: the parsed URL's scheme, or the
/// text of the parse error.
pub uninterp spec fn url_parse_result(input: Seq<char>) -> Result<Seq<char>, Seq<char>>;

/// Calls `reqwest::Url::parse`, giving the scheme of the parsed URL or the
/// display text of the parse error. Both are named by `url_parse_result`, a
/// function of the input alone; the URL grammar is not restated here.
#[verifier::external_body]
fn parse_url_scheme(input: &str) -> (out: Result<String, String>)
    ensures
        match url_parse_result(input@) {
            Ok(scheme) => out matches Ok(s) && s@ == scheme,
            Err(error) => out matches Err(e) && e@ == error,
        },
{
    match reqwest::Url::parse(input) {
        Ok(url) => Ok(url.scheme().to_string()),
        Err(error) => Err(error.to_string()),
    }
}

/// The characters of a parse outcome.
pub open spec fn parse_view(parsed: Result<String, String>) -> Result<Seq<char>, Seq<char>> {
    match parsed {
        Ok(s) => Ok(s@),
        Err(e) => Err(e@),
    }
}

/// What an API origin (already without trailing slashes) gives once parsed:
/// the origin itself when the scheme is `http` or `https`, or the message of
/// the error that rejects it.
pub open spec fn checked_base_url(trimmed: Seq<char>, parsed: Result<Seq<char>, Seq<char>>) -> Result<
    Seq<char>,
    Seq<char>,
> {
    match parsed {
        Err(e) => Err("invalid base URL: "@ + e),
        Ok(scheme) => if scheme == "http"@ || scheme == "https"@ {
            Ok(trimmed)
        } else {
            Err("base URL must use http or https"@)
        },
    }
}

/// What normalizing a custom API origin gives: the origin without trailing
/// slashes, or the message of the error that rejects it.
pub open spec fn base_url_outcome(input: Seq<char>) -> Result<Seq<char>, Seq<char>> {
    let trimmed = strip_trailing_slashes(input);
    checked_base_url(trimmed, url_parse_result(trimmed))
}

/// `base_url` without its trailing `/` characters.
pub fn trim_trailing_slashes<'a>(base_url: &'a str) -> (out: &'a str)
    ensures
        out@ == strip_trailing_slashes(base_url@),
{
    let v = chars_of(base_url);
    let mut end = v.len();
    assert(v@.subrange(0, end as int) =~= v@);
    while end > 0 && v[end - 1] == '/'
        invariant
            v@ == base_url@,
            end <= v@.len(),
            strip_trailing_slashes(base_url@) == strip_trailing_slashes(v@.subrange(0, end as int)),
        decreases end,
    {
        assert(v@.subrange(0, end as int).drop_last() =~= v@.subrange(0, end - 1));
        end = end - 1;
    }
    assert(strip_trailing_slashes(v@.subrange(0, end as int)) == v@.subrange(0, end as int)) by {
        if end > 0 {
            assert(v@.subrange(0, end as int).last() == v@[end - 1]);
        }
    }
    base_url.substring_char(0, end)
}

/// Decides on an API origin from what parsing it gave: the scheme of the
/// parsed URL, or the text of the parse error.
pub fn check_base_url(trimmed: &str, parsed: Result<String, String>) -> (out: Result<
    String,
    TaskmarketError,
>)
    ensures
        match checked_base_url(trimmed@, parse_view(parsed)) {
            Ok(u) => out matches Ok(s) && s@ == u,
            Err(msg) => out matches Err(TaskmarketError::InvalidArgument(m)) && m@ == msg,
        },
{
    match parsed {
        Err(e) => {
            let mut m = String::from_str("invalid base URL: ");
            m.append(e.as_str());
            Err(TaskmarketError::InvalidArgument(m))
        },
        Ok(scheme) => {
            if str_eq(scheme.as_str(), "http") || str_eq(scheme.as_str(), "https") {
                Ok(String::from_str(trimmed))
            } else {
                Err(
                    TaskmarketError::InvalidArgument(
                        String::from_str("base URL must use http or https"),
                    ),
                )
            }
        },
    }
}

/// Normalizes a custom API origin: trailing slashes are dropped, and the rest
/// must parse as a URL with an `http` or `https` scheme.
pub fn normalize_base_url(base_url: &str) -> (out: Result<String, TaskmarketError>)
    ensures
        match base_url_outcome(base_url@) {
            Ok(u) => out matches Ok(s) && s@ == u,
            Err(msg) => out matches Err(TaskmarketError::InvalidArgument(m)) && m@ == msg,
        },
{
    let trimmed = trim_trailing_slashes(base_url);
    let parsed = parse_url_scheme(trimmed);
    check_base_url(trimmed, parsed)
}

/// A lifecycle phase that TaskMarket understands.
pub open spec fn is_known_phase(p: Seq<char>) -> bool {
    p == "active"@ || p == "in_review"@ || p == "awaiting_settlement"@ || p == "resolved"@
}

/// A sort order that TaskMarket understands.
pub open spec fn is_known_sort(s: Seq<char>) -> bool {
    s == "newest"@ || s == "reward_desc"@ || s == "reward_asc"@ || s == "deadline_asc"@
}

/// The reward filter parameter `name` for an optional decimal amount: nothing,
/// one parameter in base units, or the message of the conversion error.
pub open spec fn reward_params(name: Seq<char>, amount: Option<String>) -> Result<
    Seq<(Seq<char>, Seq<char>)>,
    Seq<char>,
> {
    match amount {
        None => Ok(Seq::empty()),
        Some(v) => match usdc_outcome(v@) {
            Ok(n) => Ok(seq![(name, decimal(n as nat))]),
            Err(m) => Err(m),
        },
    }
}

/// One `tags` parameter per tag that is not blank once trimmed, in order.
pub open spec fn tag_params(tags: Seq<Seq<char>>) -> Seq<(Seq<char>, Seq<char>)>
    decreases tags.len(),
{
    if tags.len() == 0 {
        Seq::empty()
    } else {
        let rest = tag_params(tags.drop_last());
        let t = trim(tags.last());
        if t.len() > 0 {
            rest.push(("tags"@, t))
        } else {
            rest
        }
    }
}

/// The tags of the arguments, by their characters.
pub open spec fn arg_tags(args: BrowseTasksArgs) -> Seq<Seq<char>> {
    match args.tags {
        Some(t) => string_views(t@),
        None => Seq::empty(),
    }
}

/// What task discovery asks for: its query parameters, or the message of the
/// error that rejects the arguments. Limit, phase and sort default to 20,
/// `active` and `reward_desc`.
pub open spec fn browse_outcome(args: BrowseTasksArgs) -> Result<
    Seq<(Seq<char>, Seq<char>)>,
    Seq<char>,
> {
    let limit: u16 = match args.limit {
        Some(l) => l,
        None => 20,
    };
    let phase = match args.phase {
        Some(p) => p@,
        None => "active"@,
    };
    let sort = match args.sort {
        Some(s) => s@,
        None => "reward_desc"@,
    };
    if !(1 <= limit <= 100) {
        Err("limit must be between 1 and 100"@)
    } else if !is_known_phase(phase) {
        Err("unsupported phase `"@ + phase + "`"@)
    } else if !is_known_sort(sort) {
        Err("unsupported sort `"@ + sort + "`"@)
    } else {
        match reward_params("minReward"@, args.min_reward_usdc) {
            Err(m) => Err(m),
            Ok(min) => match reward_params("maxReward"@, args.max_reward_usdc) {
                Err(m) => Err(m),
                Ok(max) => Ok(
                    seq![("limit"@, decimal(limit as nat)), ("phase"@, phase), ("sort"@, sort)]
                        + min + max + tag_params(arg_tags(args)),
                ),
            },
        }
    }
}

fn pair(name: &str, value: &str) -> (out: (String, String))
    ensures
        out.0@ == name@,
        out.1@ == value@,
{
    (String::from_str(name), String::from_str(value))
}

/// Builds the query of task discovery from its arguments.
pub fn browse_query(args: &BrowseTasksArgs) -> (out: Result<Vec<(String, String)>, TaskmarketError>)
    ensures
        match browse_outcome(*args) {
            Ok(q) => out matches Ok(v) && pairs_view(v@) == q,
            Err(msg) => out matches Err(TaskmarketError::InvalidArgument(m)) && m@ == msg,
        },
{
    let limit: u16 = match args.limit {
        Some(l) => l,
        None => 20,
    };
    if !(1 <= limit && limit <= 100) {
        return Err(
            TaskmarketError::InvalidArgument(String::from_str("limit must be between 1 and 100")),
        );
    }
    let phase: &str = match &args.phase {
        Some(p) => p.as_str(),
        None => "active",
    };
    if !(str_eq(phase, "active") || str_eq(phase, "in_review") || str_eq(
        phase,
        "awaiting_settlement",
    ) || str_eq(phase, "resolved")) {
        let mut m = String::from_str("unsupported phase `");
        m.append(phase);
        m.append("`");
        return Err(TaskmarketError::InvalidArgument(m));
    }
    let sort: &str = match &args.sort {
        Some(s) => s.as_str(),
        None => "reward_desc",
    };
    if !(str_eq(sort, "newest") || str_eq(sort, "reward_desc") || str_eq(sort, "reward_asc")
        || str_eq(sort, "deadline_asc")) {
        let mut m = String::from_str("unsupported sort `");
        m.append(sort);
        m.append("`");
        return Err(TaskmarketError::InvalidArgument(m));
    }
    let mut query: Vec<(String, String)> = Vec::new();
    query.push(pair("limit", decimal_string(limit as u128).as_str()));
    query.push(pair("phase", phase));
    query.push(pair("sort", sort));
    let ghost base = seq![
        ("limit"@, decimal(limit as nat)),
        ("phase"@, phase@),
        ("sort"@, sort@),
    ];
    assert(pairs_view(query@) =~= base);
    let ghost min = reward_params("minReward"@, args.min_reward_usdc);
    let ghost max = reward_params("maxReward"@, args.max_reward_usdc);
    match &args.min_reward_usdc {
        Some(value) => match usdc_to_base_units(value.as_str()) {
            Ok(units) => {
                query.push(pair("minReward", units.as_str()));
            },
            Err(e) => {
                return Err(e);
            },
        },
        None => {},
    }
    assert(pairs_view(query@) =~= base + min->Ok_0);
    match &args.max_reward_usdc {
        Some(value) => match usdc_to_base_units(value.as_str()) {
            Ok(units) => {
                query.push(pair("maxReward", units.as_str()));
            },
            Err(e) => {
                return Err(e);
            },
        },
        None => {},
    }
    assert(pairs_view(query@) =~= base + min->Ok_0 + max->Ok_0);
    let ghost head = pairs_view(query@);
    match &args.tags {
        Some(tags) => {
            let n = tags.len();
            let ghost views = string_views(tags@);
            let mut i: usize = 0;
            assert(views.take(0) =~= Seq::<Seq<char>>::empty());
            while i < n
                invariant
                    n == tags@.len(),
                    views == string_views(tags@),
                    i <= n,
                    pairs_view(query@) == head + tag_params(views.take(i as int)),
                decreases n - i,
            {
                let tag = trim_str(tags[i].as_str());
                assert(views.take(i + 1).drop_last() =~= views.take(i as int));
                assert(views.take(i + 1).last() == tags@[i as int]@);
                if tag.unicode_len() > 0 {
                    let p = pair("tags", tag);
                    let ghost before = query@;
                    query.push(p);
                    assert(pairs_view(query@) =~= pairs_view(before).push(("tags"@, tag@)));
                    assert(pairs_view(query@) =~= head + tag_params(views.take(i + 1)));
                } else {
                    assert(pairs_view(query@) =~= head + tag_params(views.take(i + 1)));
                }
                i = i + 1;
            }
            assert(views.take(n as int) =~= views);
        },
        None => {
            assert(pairs_view(query@) =~= head + tag_params(Seq::empty()));
        },
    }
    Ok(query)
}

/// The request that lists public tasks with the given discovery filters.
pub fn browse_tasks_request(args: &BrowseTasksArgs) -> (out: Result<ApiRequest, TaskmarketError>)
    ensures
        match browse_outcome(*args) {
            Ok(q) => out matches Ok(r) && r.path@ == "/api/tasks"@ && pairs_view(r.query@) == q,
            Err(msg) => out matches Err(TaskmarketError::InvalidArgument(m)) && m@ == msg,
        },
{
    let query = browse_query(args)?;
    Ok(ApiRequest { path: String::from_str("/api/tasks"), query })
}

/// The request that fetches one public task.
pub fn get_task_request(task_id: &str) -> (out: Result<ApiRequest, TaskmarketError>)
    ensures
        is_path_safe(task_id@) ==> (out matches Ok(r) && r.path@ == "/api/tasks/"@ + task_id@
            && r.query@.len() == 0),
        !is_path_safe(task_id@) ==> (out matches Err(TaskmarketError::InvalidArgument(m)) && m@
            == "task_id"@ + " must be a non-empty path-safe identifier"@),
{
    validate_path_id(task_id, "task_id")?;
    let mut path = String::from_str("/api/tasks/");
    path.append(task_id);
    Ok(ApiRequest { path, query: Vec::new() })
}

/// The request that lists a worker's submissions.
pub fn track_submissions_request(worker_address: &str) -> (out: Result<ApiRequest, TaskmarketError>)
    ensures
        is_evm_address(worker_address@) ==> (out matches Ok(r) && r.path@
            == "/api/submissions/mine"@ && pairs_view(r.query@) == seq![
            ("workerAddress"@, worker_address@),
        ]),
        !is_evm_address(worker_address@) ==> (out matches Err(TaskmarketError::InvalidArgument(m))
            && m@ == "address must be a 20-byte 0x-prefixed EVM address"@),
{
    validate_address(worker_address)?;
    let mut query: Vec<(String, String)> = Vec::new();
    query.push(pair("workerAddress", worker_address));
    assert(pairs_view(query@) =~= seq![("workerAddress"@, worker_address@)]);
    Ok(ApiRequest { path: String::from_str("/api/submissions/mine"), query })
}

/// The request that lists the public submissions made to a task, without
/// preview URLs.
pub fn list_submissions_request(task_id: &str) -> (out: Result<ApiRequest, TaskmarketError>)
    ensures
        is_path_safe(task_id@) ==> (out matches Ok(r) && r.path@ == "/api/tasks/"@ + task_id@
            + "/submissions"@ && pairs_view(r.query@) == seq![
            ("includePreviewUrls"@, "none"@),
        ]),
        !is_path_safe(task_id@) ==> (out matches Err(TaskmarketError::InvalidArgument(m)) && m@
            == "task_id"@ + " must be a non-empty path-safe identifier"@),
{
    validate_path_id(task_id, "task_id")?;
    let mut path = String::from_str("/api/tasks/");
    path.append(task_id);
    path.append("/submissions");
    let mut query: Vec<(String, String)> = Vec::new();
    query.push(pair("includePreviewUrls", "none"));
    assert(pairs_view(query@) =~= seq![("includePreviewUrls"@, "none"@)]);
    Ok(ApiRequest { path, query })
}

/// The request that reads an address's public TaskMarket USDC balance.
pub fn wallet_balance_request(address: &str) -> (out: Result<ApiRequest, TaskmarketError>)
    ensures
        is_evm_address(address@) ==> (out matches Ok(r) && r.path@ == "/api/wallet/balance"@
            && pairs_view(r.query@) == seq![("address"@, address@)]),
        !is_evm_address(address@) ==> (out matches Err(TaskmarketError::InvalidArgument(m)) && m@
            == "address must be a 20-byte 0x-prefixed EVM address"@),
{
    validate_address(address)?;
    let mut query: Vec<(String, String)> = Vec::new();
    query.push(pair("address", address));
    assert(pairs_view(query@) =~= seq![("address"@, address@)]);
    Ok(ApiRequest { path: String::from_str("/api/wallet/balance"), query })
}

/// The error for a non-success response: its status and its body, bounded.
pub fn api_error(status: u16, body: &str) -> (out: TaskmarketError)
    ensures
        out matches TaskmarketError::Api { status: s, message } && s == status && message@
            == bounded(body@),
{
    TaskmarketError::Api { status, message: bounded_message(body) }
}

/// Every documented lifecycle phase and sort order is accepted. Discovery with
/// phase `active`, `in_review`, `awaiting_settlement` or `resolved` (or none),
/// sort `newest`, `reward_desc`, `reward_asc` or `deadline_asc` (or none), a
/// limit from 1 through 100 (or none) and no reward filters succeeds, and sends
/// the limit, the phase and the sort, in that order, before anything else.
pub proof fn lemma_documented_filters_accepted(args: BrowseTasksArgs)
    requires
        match args.phase {
            Some(p) => p@ == "active"@ || p@ == "in_review"@ || p@ == "awaiting_settlement"@ || p@
                == "resolved"@,
            None => true,
        },
        match args.sort {
            Some(s) => s@ == "newest"@ || s@ == "reward_desc"@ || s@ == "reward_asc"@ || s@
                == "deadline_asc"@,
            None => true,
        },
        match args.limit {
            Some(l) => 1 <= l <= 100,
            None => true,
        },
        args.min_reward_usdc is None,
        args.max_reward_usdc is None,
    ensures
        browse_outcome(args) is Ok,
        browse_outcome(args)->Ok_0.len() >= 3,
        browse_outcome(args)->Ok_0[0].0 == "limit"@,
        browse_outcome(args)->Ok_0[1] == ("phase"@, match args.phase {
            Some(p) => p@,
            None => "active"@,
        }),
        browse_outcome(args)->Ok_0[2] == ("sort"@, match args.sort {
            Some(s) => s@,
            None => "reward_desc"@,
        }),
{
}

/// Any phase other than the four documented ones is refused, naming the phase,
/// when the limit is acceptable.
pub proof fn lemma_undocumented_phase_refused(args: BrowseTasksArgs, p: String)
    requires
        args.phase == Some(p),
        !(p@ == "active"@ || p@ == "in_review"@ || p@ == "awaiting_settlement"@ || p@
            == "resolved"@),
        match args.limit {
            Some(l) => 1 <= l <= 100,
            None => true,
        },
    ensures
        browse_outcome(args) == Err::<Seq<(Seq<char>, Seq<char>)>, Seq<char>>(
            "unsupported phase `"@ + p@ + "`"@,
        ),
{
}

/// Any sort order other than the four documented ones is refused, naming it,
/// when the limit and the phase are acceptable.
pub proof fn lemma_undocumented_sort_refused(args: BrowseTasksArgs, s: String)
    requires
        args.sort == Some(s),
        !(s@ == "newest"@ || s@ == "reward_desc"@ || s@ == "reward_asc"@ || s@
            == "deadline_asc"@),
        match args.phase {
            Some(p) => p@ == "active"@ || p@ == "in_review"@ || p@ == "awaiting_settlement"@ || p@
                == "resolved"@,
            None => true,
        },
        match args.limit {
            Some(l) => 1 <= l <= 100,
            None => true,
        },
    ensures
        browse_outcome(args) == Err::<Seq<(Seq<char>, Seq<char>)>, Seq<char>>(
            "unsupported sort `"@ + s@ + "`"@,
        ),
{
}

} // verus!
