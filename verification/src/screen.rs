//! Deterministic, auditable screening of discovered tasks against local policy.

use vstd::prelude::*;

use crate::models::{ScreenTasksArgs, ScreenedTask, ScreenedTaskPage, Task, TaskPage};
use crate::text::{
    chars_of, contains_chars, contains_seq, decimal, decimal_string, lower_text, lowercase_str,
    string_views,
};

verus! {

/// The reason given when a task has more submissions than allowed.
pub open spec fn count_reason(count: u64, limit: u64) -> Seq<char> {
    "submission count "@ + decimal(count as nat) + " exceeds limit "@ + decimal(limit as nat)
}

/// The reason given when a blocked term occurs in a task.
pub open spec fn term_reason(term: Seq<char>) -> Seq<char> {
    "blocked term matched: "@ + term
}

/// `term` occurs in one of `fields`.
pub open spec fn found_in_any(fields: Seq<Seq<char>>, term: Seq<char>) -> bool {
    exists|j: int| 0 <= j < fields.len() && contains_seq(#[trigger] fields[j], term)
}

/// The fields of a task that blocked terms are searched in, each lowercased on
/// its own: the description first, then every tag in order.
pub open spec fn lowered_fields(t: Task) -> Seq<Seq<char>> {
    seq![lower_text(t.description@)] + string_views(t.tags@).map_values(
        |g: Seq<char>| lower_text(g),
    )
}

/// `term` is found in the task: in its lowercased description, or in one of its
/// lowercased tags.
pub open spec fn term_found(t: Task, term: Seq<char>) -> bool {
    ||| contains_seq(lower_text(t.description@), term)
    ||| exists|j: int| 0 <= j < t.tags@.len() && contains_seq(lower_text(#[trigger] t.tags@[j]@), term)
}

/// One reason per term that occurs in one of `fields`, in the order of the terms.
pub open spec fn term_reasons(fields: Seq<Seq<char>>, terms: Seq<Seq<char>>) -> Seq<Seq<char>>
    decreases terms.len(),
{
    if terms.len() == 0 {
        Seq::empty()
    } else {
        let rest = term_reasons(fields, terms.drop_last());
        if found_in_any(fields, terms.last()) {
            rest.push(term_reason(terms.last()))
        } else {
            rest
        }
    }
}

/// The stake check's reasons.
pub open spec fn stake_reasons(t: Task, exclude_stake: bool) -> Seq<Seq<char>> {
    if exclude_stake && t.stake_required {
        seq!["worker stake required"@]
    } else {
        Seq::empty()
    }
}

/// The submission-window check's reasons.
pub open spec fn window_reasons(t: Task, require_open_window: bool) -> Seq<Seq<char>> {
    if require_open_window && !t.submission_window_open {
        seq!["submission window is closed"@]
    } else {
        Seq::empty()
    }
}

/// The competition check's reasons.
pub open spec fn count_reasons(t: Task, max_submission_count: Option<u64>) -> Seq<Seq<char>> {
    match max_submission_count {
        Some(limit) => if t.submission_count > limit {
            seq![count_reason(t.submission_count, limit)]
        } else {
            Seq::empty()
        },
        None => Seq::empty(),
    }
}

/// Every reason that excludes `t` under the given policy, in the order the
/// checks run: stake, window, competition, then each term found in the task.
pub open spec fn screening_reasons(
    t: Task,
    exclude_stake: bool,
    require_open_window: bool,
    max_submission_count: Option<u64>,
    terms: Seq<Seq<char>>,
) -> Seq<Seq<char>> {
    stake_reasons(t, exclude_stake) + window_reasons(t, require_open_window) + count_reasons(
        t,
        max_submission_count,
    ) + term_reasons(lowered_fields(t), terms)
}

/// `s` is the screening of task `t` under the given policy: the task itself,
/// every reason, and eligibility exactly when there is no reason.
pub open spec fn is_screening_of(
    s: ScreenedTask,
    t: Task,
    exclude_stake: bool,
    require_open_window: bool,
    max_submission_count: Option<u64>,
    terms: Seq<Seq<char>>,
) -> bool {
    &&& s.task == t
    &&& string_views(s.reasons@) == screening_reasons(
        t,
        exclude_stake,
        require_open_window,
        max_submission_count,
        terms,
    )
    &&& s.eligible == (s.reasons@.len() == 0)
}

/// The stake policy of the arguments (on unless switched off).
pub open spec fn effective_exclude_stake(args: ScreenTasksArgs) -> bool {
    match args.exclude_stake {
        Some(b) => b,
        None => true,
    }
}

/// The window policy of the arguments (on unless switched off).
pub open spec fn effective_require_open_window(args: ScreenTasksArgs) -> bool {
    match args.require_open_window {
        Some(b) => b,
        None => true,
    }
}

fn push_reason(reasons: &mut Vec<String>, reason: String)
    ensures
        string_views(final(reasons)@) == string_views(old(reasons)@).push(reason@),
        final(reasons)@.len() == old(reasons)@.len() + 1,
{
    let ghost before = reasons@;
    reasons.push(reason);
    assert(string_views(reasons@) =~= string_views(before).push(reason@));
}

/// Whether `needle` occurs in one of `fields`.
fn found_in_fields(fields: &Vec<Vec<char>>, needle: &Vec<char>) -> (b: bool)
    ensures
        b == exists|j: int| 0 <= j < fields@.len() && contains_seq(#[trigger] fields@[j]@, needle@),
{
    let n = fields.len();
    let mut j: usize = 0;
    while j < n
        invariant
            n == fields@.len(),
            j <= n,
            forall|k: int| 0 <= k < j ==> !contains_seq(#[trigger] fields@[k]@, needle@),
        decreases n - j,
    {
        if contains_chars(&fields[j], needle) {
            return true;
        }
        j = j + 1;
    }
    false
}

/// The blocked-term reasons for a task whose searchable fields are `fields`
/// (each already lowercased): one `blocked term matched: <term>` per term that
/// occurs in at least one field, in the order of the terms. A term is never
/// matched across two fields.
pub fn blocked_term_reasons(fields: &Vec<String>, terms: &Vec<String>) -> (out: Vec<String>)
    ensures
        string_views(out@) == term_reasons(string_views(fields@), string_views(terms@)),
{
    let ghost fviews = string_views(fields@);
    let mut field_chars: Vec<Vec<char>> = Vec::new();
    let nf = fields.len();
    let mut k: usize = 0;
    while k < nf
        invariant
            nf == fields@.len(),
            fviews == string_views(fields@),
            k <= nf,
            field_chars@.len() == k,
            forall|m: int| 0 <= m < k ==> #[trigger] field_chars@[m]@ == fviews[m],
        decreases nf - k,
    {
        field_chars.push(chars_of(fields[k].as_str()));
        k = k + 1;
    }
    let mut reasons: Vec<String> = Vec::new();
    assert(string_views(reasons@) =~= Seq::<Seq<char>>::empty());
    let ghost tviews = string_views(terms@);
    let n = terms.len();
    let mut i: usize = 0;
    assert(tviews.take(0) =~= Seq::<Seq<char>>::empty());
    while i < n
        invariant
            n == terms@.len(),
            tviews == string_views(terms@),
            fviews == string_views(fields@),
            field_chars@.len() == fviews.len(),
            forall|m: int| 0 <= m < fviews.len() ==> #[trigger] field_chars@[m]@ == fviews[m],
            i <= n,
            string_views(reasons@) == term_reasons(fviews, tviews.take(i as int)),
        decreases n - i,
    {
        let term = &terms[i];
        let needle = chars_of(term.as_str());
        assert(tviews.take(i + 1).drop_last() =~= tviews.take(i as int));
        assert(tviews.take(i + 1).last() == term@);
        let found = found_in_fields(&field_chars, &needle);
        assert(found == found_in_any(fviews, term@)) by {
            if found {
                let j = choose|j: int|
                    0 <= j < field_chars@.len() && contains_seq(#[trigger] field_chars@[j]@, needle@);
                assert(contains_seq(fviews[j], term@));
            }
            if found_in_any(fviews, term@) {
                let j = choose|j: int| 0 <= j < fviews.len() && contains_seq(#[trigger] fviews[j], term@);
                assert(contains_seq(field_chars@[j]@, needle@));
            }
        }
        if found {
            let mut r = String::from_str("blocked term matched: ");
            r.append(term.as_str());
            push_reason(&mut reasons, r);
        }
        assert(string_views(reasons@) =~= term_reasons(fviews, tviews.take(i + 1)));
        i = i + 1;
    }
    assert(tviews.take(n as int) =~= tviews);
    reasons
}

/// The searchable fields of a task, each lowercased on its own.
fn lowered_task_fields(task: &Task) -> (out: Vec<String>)
    ensures
        string_views(out@) == lowered_fields(*task),
{
    let mut out: Vec<String> = Vec::new();
    out.push(lowercase_str(task.description.as_str()));
    let ghost tags = string_views(task.tags@);
    let n = task.tags.len();
    let mut i: usize = 0;
    assert(string_views(out@) =~= seq![lower_text(task.description@)] + tags.take(0).map_values(
        |g: Seq<char>| lower_text(g),
    ));
    while i < n
        invariant
            n == task.tags@.len(),
            tags == string_views(task.tags@),
            i <= n,
            string_views(out@) == seq![lower_text(task.description@)] + tags.take(i as int).map_values(
                |g: Seq<char>| lower_text(g),
            ),
        decreases n - i,
    {
        let lowered = lowercase_str(task.tags[i].as_str());
        let ghost before = out@;
        out.push(lowered);
        assert(string_views(out@) =~= string_views(before).push(lowered@));
        assert(tags.take(i + 1) =~= tags.take(i as int).push(tags[i as int]));
        assert(tags.take(i + 1).map_values(|g: Seq<char>| lower_text(g)) =~= tags.take(
            i as int,
        ).map_values(|g: Seq<char>| lower_text(g)).push(lower_text(tags[i as int])));
        assert(string_views(out@) =~= seq![lower_text(task.description@)] + tags.take(
            i + 1,
        ).map_values(|g: Seq<char>| lower_text(g)));
        i = i + 1;
    }
    assert(tags.take(n as int) =~= tags);
    out
}

/// Screens one task: records every policy check that excludes it, and marks
/// it eligible exactly when none does. The task is kept whatever the outcome.
pub fn screen_task(
    task: Task,
    exclude_stake: bool,
    require_open_window: bool,
    max_submission_count: Option<u64>,
    blocked_terms: &Vec<String>,
) -> (out: ScreenedTask)
    ensures
        is_screening_of(
            out,
            task,
            exclude_stake,
            require_open_window,
            max_submission_count,
            string_views(blocked_terms@),
        ),
{
    let mut reasons: Vec<String> = Vec::new();
    assert(string_views(reasons@) =~= Seq::<Seq<char>>::empty());
    if exclude_stake && task.stake_required {
        push_reason(&mut reasons, String::from_str("worker stake required"));
    }
    if require_open_window && !task.submission_window_open {
        push_reason(&mut reasons, String::from_str("submission window is closed"));
    }
    match max_submission_count {
        Some(limit) => {
            if task.submission_count > limit {
                let mut r = String::from_str("submission count ");
                r.append(decimal_string(task.submission_count as u128).as_str());
                r.append(" exceeds limit ");
                r.append(decimal_string(limit as u128).as_str());
                push_reason(&mut reasons, r);
            }
        },
        None => {},
    }
    let ghost fixed = stake_reasons(task, exclude_stake) + window_reasons(task, require_open_window)
        + count_reasons(task, max_submission_count);
    assert(string_views(reasons@) =~= fixed);
    let fields = lowered_task_fields(&task);
    let mut matched = blocked_term_reasons(&fields, blocked_terms);
    let ghost before = reasons@;
    let ghost found = matched@;
    reasons.append(&mut matched);
    assert(string_views(reasons@) =~= string_views(before) + string_views(found));
    let eligible = reasons.len() == 0;
    ScreenedTask { eligible, reasons, task }
}

/// Screens every task of a page with the policy of `args` and the already
/// normalized `blocked_terms`. Every task stays, in its place, with its
/// reasons; the page's cursor and continuation flag are kept.
pub fn screen_page(page: TaskPage, args: &ScreenTasksArgs, blocked_terms: &Vec<String>) -> (out:
    ScreenedTaskPage)
    ensures
        out.tasks@.len() == page.tasks@.len(),
        forall|i: int|
            0 <= i < page.tasks@.len() ==> is_screening_of(
                #[trigger] out.tasks@[i],
                page.tasks@[i],
                effective_exclude_stake(*args),
                effective_require_open_window(*args),
                args.max_submission_count,
                string_views(blocked_terms@),
            ),
        out.next_cursor == page.next_cursor,
        out.has_more == page.has_more,
{
    let exclude_stake = match args.exclude_stake {
        Some(b) => b,
        None => true,
    };
    let require_open_window = match args.require_open_window {
        Some(b) => b,
        None => true,
    };
    let max = args.max_submission_count;
    let ghost all = page.tasks@;
    let mut rest = page.tasks;
    let mut tasks: Vec<ScreenedTask> = Vec::new();
    let n = rest.len();
    let mut i: usize = 0;
    assert(all.skip(0) =~= all);
    while i < n
        invariant
            n == all.len(),
            i <= n,
            rest@ == all.skip(i as int),
            tasks@.len() == i,
            exclude_stake == effective_exclude_stake(*args),
            require_open_window == effective_require_open_window(*args),
            max == args.max_submission_count,
            forall|k: int|
                0 <= k < i ==> is_screening_of(
                    #[trigger] tasks@[k],
                    all[k],
                    exclude_stake,
                    require_open_window,
                    max,
                    string_views(blocked_terms@),
                ),
        decreases n - i,
    {
        let task = rest.remove(0);
        assert(task == all[i as int]);
        assert(rest@ =~= all.skip(i + 1));
        let screened = screen_task(task, exclude_stake, require_open_window, max, blocked_terms);
        tasks.push(screened);
        i = i + 1;
    }
    ScreenedTaskPage { tasks, next_cursor: page.next_cursor, has_more: page.has_more }
}

/// A term found in a field gives a reason, and no reason comes from the terms
/// exactly when none of them is found.
pub proof fn lemma_term_reasons_empty(fields: Seq<Seq<char>>, terms: Seq<Seq<char>>)
    ensures
        term_reasons(fields, terms).len() == 0 <==> forall|i: int|
            0 <= i < terms.len() ==> !found_in_any(fields, #[trigger] terms[i]),
    decreases terms.len(),
{
    if terms.len() > 0 {
        lemma_term_reasons_empty(fields, terms.drop_last());
        if forall|i: int| 0 <= i < terms.len() ==> !found_in_any(fields, #[trigger] terms[i]) {
            assert(!found_in_any(fields, terms[terms.len() - 1]));
            assert forall|i: int| 0 <= i < terms.drop_last().len() implies !found_in_any(
                fields,
                #[trigger] terms.drop_last()[i],
            ) by {
                assert(terms.drop_last()[i] == terms[i]);
            }
        }
        if term_reasons(fields, terms).len() == 0 {
            assert(!found_in_any(fields, terms.last()));
            assert forall|i: int| 0 <= i < terms.len() implies !found_in_any(
                fields,
                #[trigger] terms[i],
            ) by {
                if i < terms.len() - 1 {
                    assert(terms.drop_last()[i] == terms[i]);
                }
            }
        }
    }
}

/// Searching the lowercased fields of a task finds a term exactly when the term
/// occurs in the lowercased description or in one lowercased tag.
pub proof fn lemma_fields_find_terms(t: Task, term: Seq<char>)
    ensures
        found_in_any(lowered_fields(t), term) == term_found(t, term),
{
    let f = lowered_fields(t);
    if found_in_any(f, term) {
        let j = choose|j: int| 0 <= j < f.len() && contains_seq(#[trigger] f[j], term);
        if j > 0 {
            assert(f[j] == lower_text(t.tags@[j - 1]@));
            assert(contains_seq(lower_text(t.tags@[j - 1]@), term));
        }
    }
    if term_found(t, term) {
        if contains_seq(lower_text(t.description@), term) {
            assert(contains_seq(f[0], term));
        } else {
            let j = choose|j: int|
                0 <= j < t.tags@.len() && contains_seq(lower_text(#[trigger] t.tags@[j]@), term);
            assert(f[j + 1] == lower_text(t.tags@[j]@));
            assert(contains_seq(f[j + 1], term));
        }
    }
}

/// A task is eligible exactly when no check fires: it needs no stake (or stakes
/// are allowed), its window is open (or that is not required), it is within the
/// submission limit (if any), and no blocked term is found in its lowercased
/// description or in any of its lowercased tags.
pub proof fn lemma_eligibility(
    t: Task,
    exclude_stake: bool,
    require_open_window: bool,
    max_submission_count: Option<u64>,
    terms: Seq<Seq<char>>,
)
    ensures
        screening_reasons(t, exclude_stake, require_open_window, max_submission_count, terms).len()
            == 0 <==> {
            &&& !(exclude_stake && t.stake_required)
            &&& !(require_open_window && !t.submission_window_open)
            &&& (max_submission_count matches Some(limit) ==> t.submission_count <= limit)
            &&& forall|i: int| 0 <= i < terms.len() ==> !term_found(t, #[trigger] terms[i])
        },
{
    lemma_term_reasons_empty(lowered_fields(t), terms);
    assert forall|i: int| 0 <= i < terms.len() implies found_in_any(lowered_fields(t), #[trigger] terms[i])
        == term_found(t, terms[i]) by {
        lemma_fields_find_terms(t, terms[i]);
    }
}

/// With every check switched off and no blocked terms, every task is eligible.
pub proof fn lemma_permissive_policy_admits_all(t: Task)
    ensures
        screening_reasons(t, false, false, None, Seq::empty()).len() == 0,
{
    lemma_eligibility(t, false, false, None, Seq::empty());
}

/// A task in whose description or tags some blocked term is found (after
/// lowercasing) is never eligible, whatever the other checks say.
pub proof fn lemma_blocked_term_excludes(
    t: Task,
    exclude_stake: bool,
    require_open_window: bool,
    max_submission_count: Option<u64>,
    terms: Seq<Seq<char>>,
    i: int,
)
    requires
        0 <= i < terms.len(),
        term_found(t, terms[i]),
    ensures
        screening_reasons(t, exclude_stake, require_open_window, max_submission_count, terms).len()
            > 0,
{
    lemma_eligibility(t, exclude_stake, require_open_window, max_submission_count, terms);
}

/// Adding blocked terms never makes an excluded task eligible: a task eligible
/// under `terms + more` is eligible under `terms`.
pub proof fn lemma_more_terms_exclude_more(
    t: Task,
    exclude_stake: bool,
    require_open_window: bool,
    max_submission_count: Option<u64>,
    terms: Seq<Seq<char>>,
    more: Seq<Seq<char>>,
)
    requires
        screening_reasons(t, exclude_stake, require_open_window, max_submission_count, terms + more).len() == 0,
    ensures
        screening_reasons(t, exclude_stake, require_open_window, max_submission_count, terms).len()
            == 0,
{
    lemma_eligibility(t, exclude_stake, require_open_window, max_submission_count, terms + more);
    lemma_eligibility(t, exclude_stake, require_open_window, max_submission_count, terms);
    assert forall|i: int| 0 <= i < terms.len() implies !term_found(t, #[trigger] terms[i]) by {
        assert((terms + more)[i] == terms[i]);
    }
}

/// The stake check runs first: when it fires, the first reason says so.
pub proof fn lemma_stake_reason_first(
    t: Task,
    require_open_window: bool,
    max_submission_count: Option<u64>,
    terms: Seq<Seq<char>>,
)
    requires
        t.stake_required,
    ensures
        screening_reasons(t, true, require_open_window, max_submission_count, terms)[0]
            == "worker stake required"@,
{
}

/// The stake check is on unless it is explicitly switched off: with
/// `exclude_stake` left out or set to `Some(true)`, a task that requires a
/// stake is never eligible, and its first reason is the stake.
pub proof fn lemma_stake_check_on_unless_switched_off(
    args: ScreenTasksArgs,
    t: Task,
    terms: Seq<Seq<char>>,
)
    requires
        args.exclude_stake != Some(false),
        t.stake_required,
    ensures
        screening_reasons(
            t,
            effective_exclude_stake(args),
            effective_require_open_window(args),
            args.max_submission_count,
            terms,
        ).len() > 0,
        screening_reasons(
            t,
            effective_exclude_stake(args),
            effective_require_open_window(args),
            args.max_submission_count,
            terms,
        )[0] == "worker stake required"@,
{
}

/// `exclude_stake: Some(false)` switches the stake check off: a task whose
/// only concern is a stake stays eligible.
pub proof fn lemma_stake_check_switched_off(args: ScreenTasksArgs, t: Task)
    requires
        args.exclude_stake == Some(false),
        args.require_open_window == Some(false),
        args.max_submission_count is None,
    ensures
        screening_reasons(
            t,
            effective_exclude_stake(args),
            effective_require_open_window(args),
            args.max_submission_count,
            Seq::empty(),
        ).len() == 0,
{
    lemma_eligibility(t, false, false, None, Seq::empty());
}

/// The window check is on unless it is explicitly switched off: with
/// `require_open_window` left out or set to `Some(true)`, a task whose
/// submission window is closed is never eligible and says so.
pub proof fn lemma_window_check_on_unless_switched_off(
    args: ScreenTasksArgs,
    t: Task,
    terms: Seq<Seq<char>>,
)
    requires
        args.require_open_window != Some(false),
        !t.submission_window_open,
    ensures
        screening_reasons(
            t,
            effective_exclude_stake(args),
            effective_require_open_window(args),
            args.max_submission_count,
            terms,
        ).contains("submission window is closed"@),
{
    let r = screening_reasons(
        t,
        effective_exclude_stake(args),
        effective_require_open_window(args),
        args.max_submission_count,
        terms,
    );
    let k = if effective_exclude_stake(args) && t.stake_required {
        1int
    } else {
        0int
    };
    assert(r[k] == "submission window is closed"@);
}

} // verus!
