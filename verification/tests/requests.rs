use rig_taskmarket::error::status_line_string;
use rig_taskmarket::{
    api_error, browse_tasks_request, check_base_url, get_task_request, list_submissions_request,
    normalize_base_url, trim_trailing_slashes, track_submissions_request, wallet_balance_request, BrowseTasksArgs,
    TaskmarketError, DEFAULT_BASE_URL,
};

fn pairs(items: &[(&str, &str)]) -> Vec<(String, String)> {
    items.iter().map(|(k, v)| (k.to_string(), v.to_string())).collect()
}

fn invalid(message: &str) -> TaskmarketError {
    TaskmarketError::InvalidArgument(message.to_owned())
}

#[test]
fn browse_request_converts_usdc_rewards() {
    let request = browse_tasks_request(&BrowseTasksArgs {
        limit: Some(3),
        min_reward_usdc: Some("10.5".to_owned()),
        ..BrowseTasksArgs::default()
    })
    .expect("valid request");
    assert_eq!(request.path, "/api/tasks");
    assert_eq!(
        request.query,
        pairs(&[("limit", "3"), ("phase", "active"), ("sort", "reward_desc"), ("minReward", "10500000")])
    );
}

#[test]
fn browse_defaults_and_tags() {
    let request = browse_tasks_request(&BrowseTasksArgs {
        tags: Some(vec![" rust ".to_owned(), "  ".to_owned(), "ai".to_owned()]),
        max_reward_usdc: Some("99".to_owned()),
        phase: Some("resolved".to_owned()),
        sort: Some("newest".to_owned()),
        ..BrowseTasksArgs::default()
    })
    .unwrap();
    assert_eq!(
        request.query,
        pairs(&[
            ("limit", "20"),
            ("phase", "resolved"),
            ("sort", "newest"),
            ("maxReward", "99000000"),
            ("tags", "rust"),
            ("tags", "ai"),
        ])
    );
}

#[test]
fn browse_rejects_bad_arguments() {
    let with = |args: BrowseTasksArgs| browse_tasks_request(&args).unwrap_err();
    let base = BrowseTasksArgs::default;
    assert_eq!(with(BrowseTasksArgs { limit: Some(0), ..base() }), invalid("limit must be between 1 and 100"));
    assert_eq!(with(BrowseTasksArgs { limit: Some(101), ..base() }), invalid("limit must be between 1 and 100"));
    assert!(browse_tasks_request(&BrowseTasksArgs { limit: Some(100), ..base() }).is_ok());
    assert_eq!(
        with(BrowseTasksArgs { phase: Some("open".to_owned()), ..base() }),
        invalid("unsupported phase `open`")
    );
    assert_eq!(
        with(BrowseTasksArgs { sort: Some("oldest".to_owned()), ..base() }),
        invalid("unsupported sort `oldest`")
    );
    assert_eq!(
        with(BrowseTasksArgs {
            min_reward_usdc: Some("-1".to_owned()),
            max_reward_usdc: Some("x".to_owned()),
            ..base()
        }),
        invalid("invalid USDC amount `-1`")
    );
    assert_eq!(
        with(BrowseTasksArgs { max_reward_usdc: Some("1.1234567".to_owned()), ..base() }),
        invalid("invalid USDC amount `1.1234567`; use at most six decimals")
    );
}

#[test]
fn endpoint_requests() {
    let task = get_task_request("0xabc").unwrap();
    assert_eq!(task.path, "/api/tasks/0xabc");
    assert!(task.query.is_empty());
    assert_eq!(
        get_task_request("../x").unwrap_err(),
        invalid("task_id must be a non-empty path-safe identifier")
    );
    let subs = list_submissions_request("7").unwrap();
    assert_eq!(subs.path, "/api/tasks/7/submissions");
    assert_eq!(subs.query, pairs(&[("includePreviewUrls", "none")]));
    let addr = "0x0000000000000000000000000000000000000001";
    let mine = track_submissions_request(addr).unwrap();
    assert_eq!(mine.path, "/api/submissions/mine");
    assert_eq!(mine.query, pairs(&[("workerAddress", addr)]));
    let balance = wallet_balance_request(addr).unwrap();
    assert_eq!(balance.path, "/api/wallet/balance");
    assert_eq!(balance.query, pairs(&[("address", addr)]));
    assert_eq!(
        wallet_balance_request("0x1").unwrap_err(),
        invalid("address must be a 20-byte 0x-prefixed EVM address")
    );
}

#[test]
fn base_urls_are_normalized() {
    assert_eq!(normalize_base_url("http://127.0.0.1:8080//").unwrap(), "http://127.0.0.1:8080");
    assert_eq!(normalize_base_url(DEFAULT_BASE_URL).unwrap(), DEFAULT_BASE_URL);
    assert_eq!(
        normalize_base_url("ftp://example.com").unwrap_err(),
        invalid("base URL must use http or https")
    );
    match normalize_base_url("not a url").unwrap_err() {
        TaskmarketError::InvalidArgument(m) => assert!(m.starts_with("invalid base URL: "), "{m}"),
        other => panic!("unexpected {other:?}"),
    }
}

#[test]
fn non_success_status_is_bounded_and_typed() {
    let error = api_error(404, "not found");
    assert_eq!(
        error,
        TaskmarketError::Api { status: 404, message: "not found".to_owned() }
    );
    assert!(error.describe().contains("HTTP 404"));
    assert_eq!(error.describe(), "TaskMarket returned HTTP 404 Not Found: not found");
    assert_eq!(
        api_error(599, "x").describe(),
        "TaskMarket returned HTTP 599 <unknown status code>: x"
    );
    assert_eq!(
        invalid("bad").describe(),
        "invalid TaskMarket request: bad"
    );
    assert_eq!(
        TaskmarketError::Transport("timed out".to_owned()).describe(),
        "TaskMarket transport error: timed out"
    );
    let long = api_error(500, &"z".repeat(2000));
    match long {
        TaskmarketError::Api { message, .. } => assert_eq!(message.chars().count(), 1025),
        _ => unreachable!(),
    }
    assert!(rig_taskmarket::error::is_success_status(204));
    assert!(!rig_taskmarket::error::is_success_status(404));
}

#[test]
fn base_url_decision_from_parse_outcome() {
    assert_eq!(trim_trailing_slashes("https://x.dev///"), "https://x.dev");
    assert_eq!(trim_trailing_slashes("///"), "");
    assert_eq!(
        check_base_url("https://x.dev", Ok("https".to_owned())).unwrap(),
        "https://x.dev"
    );
    assert_eq!(check_base_url("http://x", Ok("http".to_owned())).unwrap(), "http://x");
    assert_eq!(
        check_base_url("ws://x", Ok("ws".to_owned())).unwrap_err(),
        invalid("base URL must use http or https")
    );
    assert_eq!(
        check_base_url("x", Err("relative URL without a base".to_owned())).unwrap_err(),
        invalid("invalid base URL: relative URL without a base")
    );
    assert_eq!(
        normalize_base_url("x").unwrap_err(),
        invalid("invalid base URL: relative URL without a base")
    );
}

#[test]
fn status_lines() {
    assert_eq!(status_line_string(404, Some("Not Found".to_owned())), "404 Not Found");
    assert_eq!(status_line_string(299, None), "299 <unknown status code>");
    assert_eq!(
        status_line_string(404, Some("Not Found".to_owned())),
        reqwest::StatusCode::NOT_FOUND.to_string()
    );
}
