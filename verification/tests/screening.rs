use rig_taskmarket::{
    blocked_term_reasons, normalize_blocked_terms, screen_page, screen_task, ScreenTasksArgs, Task,
    TaskPage,
};

fn task(id: &str, description: &str, stake: bool, window: bool, submissions: u64) -> Task {
    Task {
        id: id.to_owned(),
        requester: "0x0000000000000000000000000000000000000001".to_owned(),
        description: description.to_owned(),
        reward: "12000000".to_owned(),
        net_reward: Some("11100000".to_owned()),
        created_at: "2026-08-09T00:00:00Z".to_owned(),
        expiry_time: "2026-08-20T00:00:00Z".to_owned(),
        status: "open".to_owned(),
        tags: vec!["rust".to_owned()],
        mode: "bounty".to_owned(),
        phase: Some("active".to_owned()),
        stake_required: stake,
        submission_window_open: window,
        submission_count: submissions,
        award_count: 0,
        primary_award: None,
    }
}

#[test]
fn screen_tasks_keeps_exclusion_reasons_auditable() {
    let args = ScreenTasksArgs {
        max_submission_count: Some(5),
        blocked_terms: Some(vec!["human_only".to_owned()]),
        ..ScreenTasksArgs::default()
    };
    let terms = normalize_blocked_terms(args.blocked_terms.as_deref()).unwrap();
    let page = TaskPage {
        tasks: vec![
            task("0xsafe", "Write a Rust adapter", false, true, 2),
            task("0xstake", "Stake to enter", true, true, 1),
            task("0xhuman", "Complete this HUMAN_ONLY interview", false, true, 1),
            task("0xcrowded", "Write another adapter", false, true, 12),
        ],
        next_cursor: Some("next-page".to_owned()),
        has_more: true,
    };
    let page = screen_page(page, &args, &terms);

    assert!(page.tasks[0].eligible);
    assert_eq!(page.tasks[1].reasons, ["worker stake required"]);
    assert_eq!(page.tasks[2].reasons, ["blocked term matched: human_only"]);
    assert_eq!(page.tasks[3].reasons, ["submission count 12 exceeds limit 5"]);
    assert_eq!(page.next_cursor.as_deref(), Some("next-page"));
    assert!(page.has_more);
    assert_eq!(page.tasks[3].task.id, "0xcrowded");
    assert!(!page.tasks[1].eligible);
}

#[test]
fn every_check_is_reported_in_order() {
    let mut t = task("0x1", "Needs KYC", true, false, 9);
    t.tags = vec!["Human".to_owned(), "kyc".to_owned()];
    let terms = vec!["human".to_owned(), "absent".to_owned(), "kyc".to_owned()];
    let screened = screen_task(t.clone(), true, true, Some(3), &terms);
    assert!(!screened.eligible);
    assert_eq!(
        screened.reasons,
        [
            "worker stake required",
            "submission window is closed",
            "submission count 9 exceeds limit 3",
            "blocked term matched: human",
            "blocked term matched: kyc",
        ]
    );
    assert_eq!(screened.task, t);
}

#[test]
fn permissive_policy_admits_everything() {
    let t = task("0x2", "Anything", true, false, 1000);
    let screened = screen_task(t, false, false, None, &Vec::new());
    assert!(screened.eligible);
    assert!(screened.reasons.is_empty());
}

#[test]
fn checks_default_to_on_and_can_be_switched_off() {
    let page = || TaskPage {
        tasks: vec![task("0x3", "Closed", true, false, 0)],
        next_cursor: None,
        has_more: false,
    };
    let on = screen_page(page(), &ScreenTasksArgs::default(), &Vec::new());
    assert_eq!(on.tasks[0].reasons, ["worker stake required", "submission window is closed"]);
    let off = screen_page(
        page(),
        &ScreenTasksArgs {
            exclude_stake: Some(false),
            require_open_window: Some(false),
            ..ScreenTasksArgs::default()
        },
        &Vec::new(),
    );
    assert!(off.tasks[0].eligible);
    assert_eq!(off.next_cursor, None);
    assert!(!off.has_more);
}

#[test]
fn submission_limit_is_inclusive() {
    let at_limit = screen_task(task("0x4", "d", false, true, 5), true, true, Some(5), &Vec::new());
    assert!(at_limit.eligible);
}

#[test]
fn terms_never_match_across_description_and_tags() {
    let mut t = task("0x5", "alpha", false, true, 0);
    t.tags = vec!["beta".to_owned(), "gamma".to_owned()];
    let spanning = vec!["alpha beta".to_owned(), "beta gamma".to_owned()];
    let screened = screen_task(t, true, true, None, &spanning);
    assert!(screened.eligible);
    assert!(screened.reasons.is_empty());
}

#[test]
fn adapter_rust_is_found_in_neither_field() {
    let terms = normalize_blocked_terms(Some(&["adapter rust".to_owned()])).unwrap();
    let page = TaskPage {
        tasks: vec![task("0xsafe", "Write a Rust adapter", false, true, 2)],
        next_cursor: None,
        has_more: false,
    };
    let page = screen_page(page, &ScreenTasksArgs::default(), &terms);
    assert!(page.tasks[0].eligible);
    assert!(page.tasks[0].reasons.is_empty());
}

#[test]
fn terms_are_found_in_a_single_tag_or_the_description() {
    let mut t = task("0x6", "Plain work", false, true, 0);
    t.tags = vec!["Needs-KYC".to_owned()];
    let terms = vec!["needs-kyc".to_owned(), "plain work".to_owned(), "kyc plain".to_owned()];
    let screened = screen_task(t, true, true, None, &terms);
    assert_eq!(
        screened.reasons,
        ["blocked term matched: needs-kyc", "blocked term matched: plain work"]
    );
}

#[test]
fn blocked_term_reasons_search_each_field() {
    let fields = vec!["write a rust adapter".to_owned(), "rust".to_owned()];
    let terms = vec![
        "adapter rust".to_owned(),
        "rust".to_owned(),
        "adapter".to_owned(),
        "python".to_owned(),
    ];
    assert_eq!(
        blocked_term_reasons(&fields, &terms),
        ["blocked term matched: rust", "blocked term matched: adapter"]
    );
    assert!(blocked_term_reasons(&Vec::new(), &terms).is_empty());
    assert!(blocked_term_reasons(&fields, &Vec::new()).is_empty());
}
