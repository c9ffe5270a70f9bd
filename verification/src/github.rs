//! What the library decides about calls to the remote project: how often and
//! after what delay a failed call is tried again, and what a new field needs.

use crate::error::{ErrorView, TaskMasterError};
use crate::json::{at_key, JsonValue, JsonView};
use crate::text::{concat2, owned, split, split_on, str_eq};
use vstd::prelude::*;

pub mod utils;

verus! {

/// What the creation of an item gave: the id of the item in the project, and
/// the id of its content.
#[derive(Debug)]
pub struct CreateItemResult {
    pub project_item_id: String,
    pub draft_issue_id: String,
}

/// The result of a creation, as plain values.
pub struct CreateItemResultView {
    pub project_item_id: Seq<char>,
    pub draft_issue_id: Seq<char>,
}

impl View for CreateItemResult {
    type V = CreateItemResultView;

    open spec fn view(&self) -> CreateItemResultView {
        CreateItemResultView {
            project_item_id: self.project_item_id@,
            draft_issue_id: self.draft_issue_id@,
        }
    }
}

impl DeepView for CreateItemResult {
    type V = CreateItemResultView;

    open spec fn deep_view(&self) -> CreateItemResultView {
        self@
    }
}

impl Clone for CreateItemResult {
    fn clone(&self) -> (r: CreateItemResult)
        ensures
            r@ == self@,
    {
        CreateItemResult {
            project_item_id: self.project_item_id.clone(),
            draft_issue_id: self.draft_issue_id.clone(),
        }
    }
}

/// Two to the power of `n`.
pub open spec fn pow2(n: nat) -> nat
    decreases n,
{
    if n == 0 {
        1
    } else {
        2 * pow2((n - 1) as nat)
    }
}

/// The delay, in milliseconds, before the attempt that follows `failures`
/// failed ones: the base delay after the first, and twice as long after each
/// further one.
pub open spec fn backoff_delay(base: nat, failures: nat) -> nat {
    if failures == 0 {
        0
    } else {
        base * pow2((failures - 1) as nat)
    }
}

/// The delay doubles with each retry.
pub proof fn lemma_backoff_doubles(base: nat, failures: nat)
    requires
        failures >= 1,
    ensures
        backoff_delay(base, failures + 1) == 2 * backoff_delay(base, failures),
{
    assert(pow2(failures) == 2 * pow2((failures - 1) as nat));
    assert(base * (2 * pow2((failures - 1) as nat)) == 2 * (base * pow2((failures - 1) as nat)))
        by (nonlinear_arith);
}

/// What follows a call that failed in transport.
#[derive(Clone, Copy, Debug, PartialEq, Eq, Structural)]
pub enum RetryStep {
    /// Try again after this many milliseconds.
    RetryAfter(u64),
    /// The attempts are used up: the call fails with the last error.
    GiveUp,
}

/// What follows the failure that brings the count of failures to `failures`,
/// of `limit` attempts in all.
pub open spec fn retry_step(base: nat, limit: nat, failures: nat) -> RetryStep {
    if failures < limit {
        RetryStep::RetryAfter(backoff_delay(base, failures) as u64)
    } else {
        RetryStep::GiveUp
    }
}

/// A choice that a new single-select field starts with.
#[derive(Clone, Copy, Debug)]
pub struct OptionSeed {
    pub name: &'static str,
    pub color: &'static str,
    pub description: &'static str,
}

/// A choice of a new field, as plain values: name, colour and description.
pub open spec fn seed_view(s: OptionSeed) -> (Seq<char>, Seq<char>, Seq<char>) {
    (s.name@, s.color@, s.description@)
}

/// The choices that a new single-select field of this name starts with.
pub open spec fn default_options(name: Seq<char>) -> Seq<(Seq<char>, Seq<char>, Seq<char>)> {
    if name == "Priority"@ {
        seq![
            ("high"@, "RED"@, "High priority task"@),
            ("medium"@, "YELLOW"@, "Medium priority task"@),
            ("low"@, "GREEN"@, "Low priority task"@),
        ]
    } else if name == "Status"@ {
        seq![
            ("To Do"@, "GRAY"@, "Task is pending"@),
            ("In Progress"@, "YELLOW"@, "Task is in progress"@),
            ("QA Review"@, "BLUE"@, "Task completed, awaiting QA approval"@),
            ("Done"@, "GREEN"@, "Task completed and QA approved"@),
            ("Blocked"@, "RED"@, "Task is blocked"@),
        ]
    } else if name == "Agent"@ {
        seq![("Unassigned"@, "GRAY"@, "No agent assigned"@)]
    } else {
        seq![("Default"@, "GRAY"@, "Default option"@)]
    }
}

/// What the creation of a field asks of the remote side.
#[derive(Debug)]
pub enum FieldCreation {
    /// A text field.
    Text,
    /// A single-select field that starts with these choices.
    SingleSelect(Vec<OptionSeed>),
}

/// The model of a field creation: no choices for a text field.
pub open spec fn creation_view(c: FieldCreation) -> Option<Seq<(Seq<char>, Seq<char>, Seq<char>)>> {
    match c {
        FieldCreation::Text => None,
        FieldCreation::SingleSelect(seeds) => Some(
            Seq::new(seeds@.len(), |i: int| seed_view(seeds@[i])),
        ),
    }
}

/// What the creation of a field named `name` of the kind `data_type` asks
/// for: nothing more for text, the default choices for a single select, and
/// an error for any other kind.
pub open spec fn field_creation(name: Seq<char>, data_type: Seq<char>) -> Result<
    Option<Seq<(Seq<char>, Seq<char>, Seq<char>)>>,
    ErrorView,
> {
    if data_type == "TEXT"@ {
        Ok(None)
    } else if data_type == "SINGLE_SELECT"@ {
        Ok(Some(default_options(name)))
    } else {
        Err(ErrorView::InvalidTaskFormat("Unsupported field type: "@ + data_type))
    }
}

/// Owner and name of a repository written as `owner/name`.
pub open spec fn repository_parts(repository: Seq<char>) -> Result<(Seq<char>, Seq<char>), ErrorView> {
    let parts = split_on(repository, "/"@);
    if parts.len() == 2 {
        Ok((parts[0], parts[1]))
    } else {
        Err(
            ErrorView::ConfigError(
                "Invalid repository format '"@ + repository + "'. Expected 'owner/name'"@,
            ),
        )
    }
}

/// Whether the service answered with errors of its own: whether the answer
/// holds a list `errors` that is not empty. Such an answer is final; the call
/// is not tried again.
pub open spec fn answers_with_errors(response: JsonView) -> bool {
    match at_key(response, "errors"@) {
        JsonView::Array(list) => list.len() > 0,
        _ => false,
    }
}

/// Whether the service answered with errors of its own.
pub fn has_service_errors(response: &JsonValue) -> (r: bool)
    ensures
        r == answers_with_errors(response@),
{
    match response.get("errors") {
        Some(errors) => match errors {
            JsonValue::Array(list) => {
                assert(errors@ is Array);
                assert(errors@->Array_0.len() == list@.len());
                list.len() > 0
            },
            _ => false,
        },
        None => false,
    }
}

/// The settings of the calls to the remote project.
pub struct GitHubAPI {
    organization: String,
    retry_count: u32,
    retry_delay_ms: u64,
}

impl GitHubAPI {
    #[verifier::type_invariant]
    spec fn inv(&self) -> bool {
        self.retry_count <= 16 && self.retry_delay_ms <= 1_000_000
    }

    /// The organisation whose projects are reached.
    pub closed spec fn org(&self) -> Seq<char> {
        self.organization@
    }

    /// How often a call is attempted at most.
    pub closed spec fn attempts(&self) -> nat {
        self.retry_count as nat
    }

    /// The delay before the first retry, in milliseconds.
    pub closed spec fn base_delay(&self) -> nat {
        self.retry_delay_ms as nat
    }

    /// The settings for an organisation: three attempts, the first retry
    /// after one second.
    pub fn new(organization: String) -> (api: GitHubAPI)
        ensures
            api.org() == organization@,
            api.attempts() == 3,
            api.base_delay() == 1000,
    {
        GitHubAPI { organization, retry_count: 3, retry_delay_ms: 1000 }
    }

    /// The organisation whose projects are reached.
    pub fn organization(&self) -> (r: &str)
        ensures
            r@ == self.org(),
    {
        self.organization.as_str()
    }

    /// How often a call is attempted at most.
    pub fn max_attempts(&self) -> (r: u32)
        ensures
            r == self.attempts(),
    {
        self.retry_count
    }

    /// What follows a failure in transport, after `failures_before` earlier
    /// ones: another attempt after a delay that doubles each time, as long as
    /// attempts are left.
    pub fn after_transport_failure(&self, failures_before: u32) -> (r: RetryStep)
        requires
            failures_before < self.attempts(),
        ensures
            r == retry_step(self.base_delay(), self.attempts(), failures_before as nat + 1),
            self.attempts() <= 16,
            self.base_delay() <= 1_000_000,
    {
        proof {
            use_type_invariant(self);
        }
        let failures = failures_before + 1;
        if failures < self.retry_count {
            let mut factor: u64 = 1;
            let mut k: u32 = 1;
            while k < failures
                invariant
                    1 <= k <= failures,
                    failures <= 16,
                    factor == pow2((k - 1) as nat),
                    factor <= 65536,
                decreases failures - k,
            {
                proof {
                    lemma_pow2_bound(k as nat);
                }
                factor = factor * 2;
                k = k + 1;
            }
            assert(self.retry_delay_ms * factor <= 1_000_000 * 65536) by (nonlinear_arith)
                requires
                    self.retry_delay_ms <= 1_000_000,
                    factor <= 65536,
            ;
            RetryStep::RetryAfter(self.retry_delay_ms * factor)
        } else {
            RetryStep::GiveUp
        }
    }
}

/// Small powers of two are small.
proof fn lemma_pow2_bound(n: nat)
    requires
        n <= 16,
    ensures
        pow2(n) <= 65536,
        n >= 1 ==> pow2(n) == 2 * pow2((n - 1) as nat),
        n < 16 ==> pow2(n) <= 32768,
{
    lemma_pow2_grows(n, 16);
    assert(pow2(16) == 65536) by {
        reveal_with_fuel(pow2, 17);
    }
    if n < 16 {
        lemma_pow2_grows(n, 15);
        assert(pow2(15) == 32768) by {
            reveal_with_fuel(pow2, 16);
        }
    }
}

/// A greater power of two is no smaller.
proof fn lemma_pow2_grows(a: nat, b: nat)
    requires
        a <= b,
    ensures
        pow2(a) <= pow2(b),
    decreases b,
{
    if a < b {
        lemma_pow2_grows(a, (b - 1) as nat);
    }
}

/// The choices that a new single-select field of this name starts with.
pub fn default_field_options(name: &str) -> (r: Vec<OptionSeed>)
    ensures
        Seq::new(r@.len(), |i: int| seed_view(r@[i])) == default_options(name@),
{
    let mut r: Vec<OptionSeed> = Vec::new();
    if str_eq(name, "Priority") {
        r.push(OptionSeed { name: "high", color: "RED", description: "High priority task" });
        r.push(
            OptionSeed { name: "medium", color: "YELLOW", description: "Medium priority task" },
        );
        r.push(OptionSeed { name: "low", color: "GREEN", description: "Low priority task" });
    } else if str_eq(name, "Status") {
        r.push(OptionSeed { name: "To Do", color: "GRAY", description: "Task is pending" });
        r.push(
            OptionSeed { name: "In Progress", color: "YELLOW", description: "Task is in progress" },
        );
        r.push(
            OptionSeed {
                name: "QA Review",
                color: "BLUE",
                description: "Task completed, awaiting QA approval",
            },
        );
        r.push(
            OptionSeed {
                name: "Done",
                color: "GREEN",
                description: "Task completed and QA approved",
            },
        );
        r.push(OptionSeed { name: "Blocked", color: "RED", description: "Task is blocked" });
    } else if str_eq(name, "Agent") {
        r.push(OptionSeed { name: "Unassigned", color: "GRAY", description: "No agent assigned" });
    } else {
        r.push(OptionSeed { name: "Default", color: "GRAY", description: "Default option" });
    }
    assert(Seq::new(r@.len(), |i: int| seed_view(r@[i])) =~= default_options(name@));
    r
}

/// What the creation of a field named `name` of the kind `data_type` asks for.
pub fn create_custom_field(name: &str, data_type: &str) -> (r: Result<FieldCreation, TaskMasterError>)
    ensures
        match field_creation(name@, data_type@) {
            Ok(c) => r is Ok && creation_view(r->Ok_0) == c,
            Err(e) => r is Err && r->Err_0@ == e,
        },
{
    if str_eq(data_type, "TEXT") {
        Ok(FieldCreation::Text)
    } else if str_eq(data_type, "SINGLE_SELECT") {
        Ok(FieldCreation::SingleSelect(default_field_options(name)))
    } else {
        Err(TaskMasterError::InvalidTaskFormat(concat2("Unsupported field type: ", data_type)))
    }
}

/// Owner and name of a repository written as `owner/name`.
pub fn split_repository(repository: &str) -> (r: Result<(String, String), TaskMasterError>)
    ensures
        match repository_parts(repository@) {
            Ok(p) => r is Ok && r->Ok_0.0@ == p.0 && r->Ok_0.1@ == p.1,
            Err(e) => r is Err && r->Err_0@ == e,
        },
{
    let parts = split(repository, "/");
    if parts.len() == 2 {
        assert(parts.deep_view()[0] == parts@[0]@);
        assert(parts.deep_view()[1] == parts@[1]@);
        Ok((parts[0].clone(), parts[1].clone()))
    } else {
        let mut text = owned("Invalid repository format '");
        text.append(repository);
        text.append("'. Expected 'owner/name'");
        Err(TaskMasterError::ConfigError(text))
    }
}

} // verus!
