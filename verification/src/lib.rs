//! Read-only [TaskMarket](https://taskmarket.dev/) logic for agent tooling:
//! argument validation, request construction, exact USDC amount conversion and
//! auditable screening of discovered tasks against local policy.
//!
//! Nothing here signs, pays, submits or otherwise changes state: the requests
//! this crate builds are public `GET`s only.

pub mod amount;
pub mod error;
pub mod models;
pub mod request;
pub mod screen;
pub mod text;
pub mod validate;

pub use amount::usdc_to_base_units;
pub use error::TaskmarketError;
pub use models::{
    Artifact, BrowseTasksArgs, GetTaskArgs, ListSubmissionsArgs, ScreenTasksArgs, ScreenedTask,
    ScreenedTaskPage, Submission, SubmissionSummary, Task, TaskPage, TrackSubmissionsArgs,
    WalletBalance, WalletBalanceArgs,
};
pub use request::{
    api_error, browse_query, browse_tasks_request, check_base_url, get_task_request,
    list_submissions_request, normalize_base_url, track_submissions_request, trim_trailing_slashes,
    wallet_balance_request, ApiRequest, DEFAULT_BASE_URL,
};
pub use screen::{blocked_term_reasons, screen_page, screen_task};
pub use validate::{bounded_message, normalize_blocked_terms, validate_address, validate_path_id};
