//! Accounts of plugins and of the agent: what they may do, how they are provisioned, and how
//! their credentials are kept fresh.
use crate::name_map::NameMap;
use crate::plugin::fingerprint;
use crate::plugin::fingerprint::hex_encode;
use crate::plugin::manifest::PluginCapability;
use crate::text;
use crate::text::{contains_text, decimal_text, is_blank, join3, text_of_utf8, to_lowercase};
use rand::RngCore;
use vstd::prelude::*;
use vstd::utf8::*;

verus! {

/// How long before its expiry a credential is renewed, in seconds.
pub const RENEW_LEAD_SECS: i64 = 120;

/// Shortest pause between renewals, in seconds.
pub const MIN_RENEW_INTERVAL_SECS: u64 = 30;

/// Pause between renewals of a credential whose expiry is unknown, in seconds.
pub const UNKNOWN_EXPIRY_INTERVAL_SECS: u64 = 600;

/// Pause after a renewal that failed, in seconds.
pub const FAILED_RENEWAL_BACKOFF_SECS: i64 = 60;

/// Attempts at an identity where the caller does not say, the first one counted.
pub const ENSURE_ATTEMPTS: u32 = 5;

/// First pause between attempts where the caller does not say, in nanoseconds.
pub const ENSURE_BACKOFF_NS: u128 = 200_000_000;

/// The longest pause there is: the largest number of seconds of 64 bits, and a nanosecond less
/// than one second more.
pub const MAX_PAUSE_NS: u128 = 18_446_744_073_709_551_615_999_999_999;

/// User of the account that provisions plugin accounts.
pub const DEFAULT_PROVISIONER_USER: &'static str = "agent-provisioner";

/// User of the agent's own account.
pub const DEFAULT_SELF_USER: &'static str = "agent-self";

/// Role of the agent's own account.
pub const SELF_ROLE: &'static str = "agent-self-role";

/// What the provisioning account may do: manage accounts, and nothing with data.
pub const PROVISIONER_CAPABILITY_GRANTS: [(&'static str, &'static str); 5] = [
    ("admin:auth:user_add", ""),
    ("admin:auth:role_add", ""),
    ("admin:auth:role_grant", ""),
    ("admin:auth:user_grant_role", ""),
    ("admin:auth:role_list", ""),
];

/// The key spaces in which the agent keeps its own records.
pub const SELF_KEYSPACES: [&'static str; 12] = [
    "lock",
    "registry",
    "config",
    "idgen",
    "election",
    "workflow",
    "pki",
    "policy",
    "transit",
    "events",
    "featureflags",
    "scheduler",
];

/// What the agent does in each of its key spaces.
pub const SELF_KEYSPACE_OPERATIONS: [&'static str; 4] = [
    "data:kv:read",
    "data:kv:write",
    "data:kv:delete",
    "data:txn:execute",
];

/// What the agent does that no key bounds.
pub const SELF_UNSCOPED_GRANTS: [&'static str; 3] = [
    "data:lease:keepalive",
    "data:lease:revoke",
    "data:watch:subscribe",
];

/// A capability and the resources it covers.
pub type Grant = (Seq<char>, Seq<char>);

/// Contents of grants.
pub open spec fn grant_views(v: Seq<(String, String)>) -> Seq<Grant> {
    Seq::new(v.len(), |i: int| (v[i].0@, v[i].1@))
}

/// Everything below a key space of the agent.
pub open spec fn keyspace_scope(space: Seq<char>) -> Seq<char> {
    "/_"@ + space + "/*"@
}

/// What the agent's own account may do: each operation in each of its key spaces, and what no key
/// bounds.
pub open spec fn self_grants() -> Seq<Grant> {
    Seq::new(
        51,
        |i: int|
            if i < 48 {
                (SELF_KEYSPACE_OPERATIONS[i % 4]@, keyspace_scope(SELF_KEYSPACES[i / 4]@))
            } else {
                (SELF_UNSCOPED_GRANTS[i - 48]@, Seq::empty())
            },
    )
}

/// What the provisioning account may do.
pub open spec fn provisioner_grants() -> Seq<Grant> {
    Seq::new(
        5,
        |i: int| (PROVISIONER_CAPABILITY_GRANTS[i].0@, PROVISIONER_CAPABILITY_GRANTS[i].1@),
    )
}

/// What the agent's own account may do.
pub fn self_capability_grants() -> (r: Vec<(String, String)>)
    ensures
        grant_views(r@) == self_grants(),
{
    let mut out: Vec<(String, String)> = Vec::new();
    let spaces = SELF_KEYSPACES;
    let operations = SELF_KEYSPACE_OPERATIONS;
    let unscoped = SELF_UNSCOPED_GRANTS;
    let mut i: usize = 0;
    while i < 12
        invariant
            i <= 12,
            spaces == SELF_KEYSPACES,
            operations == SELF_KEYSPACE_OPERATIONS,
            out@.len() == 4 * i,
            forall|k: int| 0 <= k < 4 * i ==> #[trigger] grant_views(out@)[k] == self_grants()[k],
        decreases 12 - i,
    {
        let mut j: usize = 0;
        while j < 4
            invariant
                i < 12,
                j <= 4,
                spaces == SELF_KEYSPACES,
                operations == SELF_KEYSPACE_OPERATIONS,
                out@.len() == 4 * i + j,
                forall|k: int|
                    0 <= k < 4 * i + j ==> #[trigger] grant_views(out@)[k] == self_grants()[k],
            decreases 4 - j,
        {
            let ghost before = out@;
            let scope = join3("/_", spaces[i], "/*");
            out.push((operations[j].to_owned(), scope));
            proof {
                let n = 4 * i + j;
                assert(n / 4 == i && n % 4 == j);
                assert forall|k: int| 0 <= k < n + 1 implies #[trigger] grant_views(out@)[k]
                    == self_grants()[k] by {
                    if k < n {
                        assert(grant_views(before)[k] == self_grants()[k]);
                        assert(out@[k] == before[k]);
                    }
                }
            }
            j += 1;
        }
        i += 1;
    }
    let mut k: usize = 0;
    while k < 3
        invariant
            k <= 3,
            unscoped == SELF_UNSCOPED_GRANTS,
            out@.len() == 48 + k,
            forall|m: int| 0 <= m < 48 + k ==> #[trigger] grant_views(out@)[m] == self_grants()[m],
        decreases 3 - k,
    {
        let ghost before = out@;
        let scope = String::new();
        out.push((unscoped[k].to_owned(), scope));
        proof {
            let n = 48 + k;
            assert(scope@ =~= Seq::<char>::empty());
            assert forall|m: int| 0 <= m < n + 1 implies #[trigger] grant_views(out@)[m]
                == self_grants()[m] by {
                if m < n {
                    assert(grant_views(before)[m] == self_grants()[m]);
                    assert(out@[m] == before[m]);
                }
            }
        }
        k += 1;
    }
    assert(grant_views(out@) =~= self_grants());
    out
}

/// What the provisioning account may do.
pub fn provisioner_capability_grants() -> (r: Vec<(String, String)>)
    ensures
        grant_views(r@) == provisioner_grants(),
{
    let mut out: Vec<(String, String)> = Vec::new();
    let grants = PROVISIONER_CAPABILITY_GRANTS;
    let mut i: usize = 0;
    while i < 5
        invariant
            i <= 5,
            grants == PROVISIONER_CAPABILITY_GRANTS,
            out@.len() == i,
            forall|k: int| 0 <= k < i ==> #[trigger] grant_views(out@)[k] == provisioner_grants()[k],
        decreases 5 - i,
    {
        let ghost before = out@;
        out.push((grants[i].0.to_owned(), grants[i].1.to_owned()));
        proof {
            assert forall|k: int| 0 <= k < i + 1 implies #[trigger] grant_views(out@)[k]
                == provisioner_grants()[k] by {
                if k < i {
                    assert(grant_views(before)[k] == provisioner_grants()[k]);
                    assert(out@[k] == before[k]);
                }
            }
        }
        i += 1;
    }
    assert(grant_views(out@) =~= provisioner_grants());
    out
}

/// Grants in the form in which plugins declare theirs.
pub fn as_plugin_capabilities(grants: &[(String, String)]) -> (r: Vec<PluginCapability>)
    ensures
        r@.len() == grants@.len(),
        forall|i: int|
            0 <= i < grants@.len() ==> (#[trigger] r@[i]).id == grants@[i].0 && r@[i].scope
                == grants@[i].1,
{
    let mut out: Vec<PluginCapability> = Vec::new();
    let mut i: usize = 0;
    while i < grants.len()
        invariant
            i <= grants@.len(),
            out@.len() == i,
            forall|k: int|
                0 <= k < i ==> (#[trigger] out@[k]).id == grants@[k].0 && out@[k].scope
                    == grants@[k].1,
        decreases grants@.len() - i,
    {
        out.push(PluginCapability { id: grants[i].0.clone(), scope: grants[i].1.clone() });
        i += 1;
    }
    out
}

// ---- accounts ----

/// A credential as it was issued.
#[derive(Debug, PartialEq, Eq)]
pub struct IssuedToken {
    /// The credential.
    pub cct: String,
    /// Token for the next renewal, where one was issued.
    pub refresh_token: Option<String>,
    /// Expiry in seconds of the epoch; zero where it is unknown.
    pub expires_at: i64,
}

impl Clone for IssuedToken {
    fn clone(&self) -> (r: Self)
        ensures
            r == *self,
    {
        IssuedToken {
            cct: self.cct.clone(),
            refresh_token: self.refresh_token.clone(),
            expires_at: self.expires_at,
        }
    }
}

/// An account: its user, its role and the name under which its password is kept.
#[derive(Debug, PartialEq, Eq)]
pub struct Account {
    pub user: String,
    pub role: String,
    pub key_id: String,
}

/// The account of a plugin.
pub fn plugin_account(plugin: &str) -> (r: Account)
    ensures
        r.user@ == "plugin/"@ + plugin@,
        r.role@ == "plugin/"@ + plugin@ + "-role"@,
        r.key_id@ == "plugin-"@ + plugin@,
{
    let mut user = "plugin/".to_owned();
    user.append(plugin);
    let role = join3("plugin/", plugin, "-role");
    let mut key_id = "plugin-".to_owned();
    key_id.append(plugin);
    Account { user, role, key_id }
}

/// The account that provisions plugin accounts; its user must have a name.
pub fn provisioner_account(user: &str) -> (r: Result<Account, String>)
    ensures
        match r {
            Ok(a) => !text::blank(user@) && a.user@ == user@ && a.role@ == user@ + "-role"@
                && a.key_id@ == "provisioner-"@ + user@,
            Err(e) => text::blank(user@) && e@ == "provisioner user name must not be empty"@,
        },
{
    if is_blank(user) {
        return Err("provisioner user name must not be empty".to_owned());
    }
    let mut role = user.to_owned();
    role.append("-role");
    let mut key_id = "provisioner-".to_owned();
    key_id.append(user);
    Ok(Account { user: user.to_owned(), role, key_id })
}

/// The agent's own account; its user must have a name.
pub fn self_account(user: &str) -> (r: Result<Account, String>)
    ensures
        match r {
            Ok(a) => !text::blank(user@) && a.user@ == user@ && a.role@ == SELF_ROLE@ && a.key_id@
                == "self-"@ + user@,
            Err(e) => text::blank(user@) && e@ == "agent self user name must not be empty"@,
        },
{
    if is_blank(user) {
        return Err("agent self user name must not be empty".to_owned());
    }
    let mut key_id = "self-".to_owned();
    key_id.append(user);
    Ok(Account { user: user.to_owned(), role: SELF_ROLE.to_owned(), key_id })
}

// ---- passwords ----

/// A stored password that can be used: text, and not empty.
pub open spec fn usable_secret(stored: Option<Seq<u8>>) -> Option<Seq<char>> {
    match stored {
        Some(bytes) => if valid_utf8(bytes) && decode_utf8(bytes).len() > 0 {
            Some(decode_utf8(bytes))
        } else {
            None
        },
        None => None,
    }
}

/// The stored password, where it can be used.
pub fn stored_password(stored: Option<Vec<u8>>) -> (r: Option<String>)
    ensures
        match r {
            Some(s) => stored matches Some(b) && usable_secret(Some(b@)) == Some(s@),
            None => match stored {
                Some(b) => usable_secret(Some(b@)) is None,
                None => true,
            },
        },
{
    match stored {
        None => None,
        Some(bytes) => match text_of_utf8(bytes) {
            None => None,
            Some(s) => {
                if s.as_str().unicode_len() == 0 {
                    None
                } else {
                    Some(s)
                }
            },
        },
    }
}

/// `rand::RngCore::fill_bytes` of `rand::thread_rng`: 32 bytes that nobody can foretell. Only
/// their number is stated, for they differ from call to call.
#[verifier::external_body]
fn random_bytes() -> (r: Vec<u8>)
    ensures
        r@.len() == 32,
{
    let mut raw = [0u8; 32];
    rand::thread_rng().fill_bytes(&mut raw);
    raw.to_vec()
}

/// The password that random bytes make: their hexadecimal digits.
pub fn password_of(raw: &[u8]) -> (r: String)
    requires
        2 * raw@.len() <= isize::MAX,
    ensures
        r@ == fingerprint::hex_text(raw@),
{
    hex_encode(raw)
}

/// The password of an account, and whether it is new and has to be stored: the stored one where
/// it can be used, else a new one of 64 hexadecimal digits.
pub fn stored_secret(stored: Option<Vec<u8>>) -> (r: (String, bool))
    ensures
        match stored {
            Some(b) => match usable_secret(Some(b@)) {
                Some(s) => r.0@ == s && !r.1,
                None => r.1,
            },
            None => r.1,
        },
        r.1 ==> exists|raw: Seq<u8>|
            raw.len() == 32 && r.0@ == #[trigger] fingerprint::hex_text(raw),
        r.1 ==> r.0@.len() == 64,
{
    match stored_password(stored) {
        Some(s) => (s, false),
        None => {
            let raw = random_bytes();
            let password = password_of(raw.as_slice());
            assert(password@ == fingerprint::hex_text(raw@));
            (password, true)
        },
    }
}

// ---- provisioning ----

/// Whether a failure says that the thing is there already.
pub open spec fn says_exists(lower: Seq<char>) -> bool {
    text::has_part(lower, "already exists"@) || text::has_part(lower, "alreadyexists"@)
}

/// Whether a failure, in lower case, says that the thing is there already.
pub fn reports_existing(lower: &str) -> (r: bool)
    ensures
        r == says_exists(lower@),
{
    contains_text(lower, "already exists") || contains_text(lower, "alreadyexists")
}

/// A failure that says that the thing is there already counts as success.
pub fn ignore_exists(e: String) -> (r: Result<(), String>)
    ensures
        match r {
            Ok(_) => says_exists(text::lowercase(e@)),
            Err(f) => !says_exists(text::lowercase(e@)) && f == e,
        },
{
    let lower = to_lowercase(e.as_str());
    if reports_existing(lower.as_str()) {
        Ok(())
    } else {
        Err(e)
    }
}

/// What is to be done next for an account.
#[derive(Debug, Clone, Copy, PartialEq, Eq, Structural)]
pub enum ProvisionAction {
    AddUser,
    AddRole,
    /// Grant the role the capability at this place.
    Grant(usize),
    BindRole,
    Done,
}

/// An account under provisioning: the user, the role, each grant, then the binding of the role.
#[derive(Debug)]
pub struct ProvisionRun {
    grants: usize,
    step: usize,
    error: Option<String>,
}

/// Contents of [`ProvisionRun`].
pub struct ProvisionView {
    /// How many capabilities are granted.
    pub grants: int,
    /// How many steps are done.
    pub step: int,
    /// The failure that ended it.
    pub error: Option<Seq<char>>,
}

/// Whether nothing is left to be done.
pub open spec fn provisioned(run: ProvisionView) -> bool {
    run.error is Some || run.step >= run.grants + 3
}

/// What is to be done next.
pub open spec fn provision_action(run: ProvisionView) -> ProvisionAction {
    if provisioned(run) {
        ProvisionAction::Done
    } else if run.step == 0 {
        ProvisionAction::AddUser
    } else if run.step == 1 {
        ProvisionAction::AddRole
    } else if run.step < run.grants + 2 {
        ProvisionAction::Grant((run.step - 2) as usize)
    } else {
        ProvisionAction::BindRole
    }
}

/// The failure that a step amounts to: one that says that the thing is there already is none.
pub open spec fn real_failure(error: Option<Seq<char>>) -> Option<Seq<char>> {
    match error {
        Some(e) => if says_exists(text::lowercase(e)) {
            None
        } else {
            Some(e)
        },
        None => None,
    }
}

/// The run after a step.
pub open spec fn provision_next(run: ProvisionView, error: Option<Seq<char>>) -> ProvisionView {
    if provisioned(run) {
        run
    } else {
        match real_failure(error) {
            None => ProvisionView { step: run.step + 1, ..run },
            Some(e) => ProvisionView { error: Some(e), ..run },
        }
    }
}

impl View for ProvisionRun {
    type V = ProvisionView;

    closed spec fn view(&self) -> ProvisionView {
        ProvisionView {
            grants: self.grants as int,
            step: self.step as int,
            error: crate::plugin::reload::opt_text(self.error),
        }
    }
}

impl ProvisionRun {
    #[verifier::type_invariant]
    closed spec fn wf(&self) -> bool {
        self.step <= self.grants + 3 && self.grants + 3 <= usize::MAX
    }

    /// An account with a number of capabilities to be granted.
    pub fn new(grants: usize) -> (r: Self)
        requires
            grants + 3 <= usize::MAX,
        ensures
            r@ == (ProvisionView { grants: grants as int, step: 0, error: None }),
    {
        ProvisionRun { grants, step: 0, error: None }
    }

    /// What is to be done next.
    pub fn action(&self) -> (r: ProvisionAction)
        ensures
            r == provision_action(self@),
    {
        proof {
            use_type_invariant(self);
        }
        if self.error.is_some() || self.step >= self.grants + 3 {
            ProvisionAction::Done
        } else if self.step == 0 {
            ProvisionAction::AddUser
        } else if self.step == 1 {
            ProvisionAction::AddRole
        } else if self.step < self.grants + 2 {
            ProvisionAction::Grant(self.step - 2)
        } else {
            ProvisionAction::BindRole
        }
    }

    /// Whether nothing is left to be done.
    pub fn is_over(&self) -> (r: bool)
        ensures
            r == provisioned(self@),
    {
        proof {
            use_type_invariant(self);
        }
        self.error.is_some() || self.step >= self.grants + 3
    }

    /// The run after the step that was to be done.
    pub fn advance(self, outcome: Result<(), String>) -> (r: Self)
        ensures
            r@ == provision_next(self@, crate::plugin::reload::outcome_error(outcome)),
    {
        proof {
            use_type_invariant(&self);
        }
        let ProvisionRun { grants, step, error } = self;
        if error.is_some() || step >= grants + 3 {
            return ProvisionRun { grants, step, error };
        }
        let settled = match outcome {
            Ok(_) => Ok(()),
            Err(e) => ignore_exists(e),
        };
        match settled {
            Ok(_) => ProvisionRun { grants, step: step + 1, error },
            Err(e) => ProvisionRun { grants, step, error: Some(e) },
        }
    }

    /// What the run came to.
    pub fn into_outcome(self) -> (r: Result<(), String>)
        ensures
            match r {
                Ok(_) => self@.error is None,
                Err(e) => self@.error == Some(e@),
            },
    {
        match self.error {
            None => Ok(()),
            Some(e) => Err(e),
        }
    }
}

/// The run when nothing is left to be done, given how each step turns out.
pub open spec fn provision_end(run: ProvisionView, o: spec_fn(int) -> Option<Seq<char>>) -> ProvisionView
    decreases run.grants + 3 - run.step, (if run.error is None { 1int } else { 0int }),
{
    if provisioned(run) {
        run
    } else {
        provision_end(provision_next(run, o(run.step)), o)
    }
}

/// Provisioning succeeds exactly where every step succeeds or finds its thing there already, so
/// doing it again is harmless; otherwise it ends at the first step that fails, with its failure,
/// and no later step is tried.
pub proof fn law_provisioning_is_idempotent_and_stops_at_a_failure(
    run: ProvisionView,
    o: spec_fn(int) -> Option<Seq<char>>,
)
    requires
        0 <= run.step <= run.grants + 3,
        run.error is None,
    ensures
        ({
            let end = provision_end(run, o);
            &&& end.error is None <==> forall|i: int|
                run.step <= i < run.grants + 3 ==> real_failure(#[trigger] o(i)) is None
            &&& end.error is None ==> end.step == run.grants + 3
            &&& end.error is Some ==> run.step <= end.step < run.grants + 3 && end.error
                == real_failure(o(end.step)) && forall|i: int|
                run.step <= i < end.step ==> real_failure(#[trigger] o(i)) is None
        }),
    decreases run.grants + 3 - run.step,
{
    if run.step < run.grants + 3 {
        let next = provision_next(run, o(run.step));
        assert(provision_end(run, o) == provision_end(next, o));
        if next.error is None {
            law_provisioning_is_idempotent_and_stops_at_a_failure(next, o);
            let end = provision_end(next, o);
            assert(real_failure(o(run.step)) is None);
            if forall|i: int| next.step <= i < run.grants + 3 ==> real_failure(#[trigger] o(i)) is None {
                assert forall|i: int| run.step <= i < run.grants + 3 implies real_failure(
                    #[trigger] o(i),
                ) is None by {
                    if i != run.step {
                        assert(next.step <= i);
                    }
                }
            }
        } else {
            assert(provision_end(next, o) == next);
            assert(real_failure(o(run.step)) is Some);
        }
    }
}

// ---- retries ----

/// How often an identity is tried for.
#[derive(Debug, Clone, Copy, PartialEq, Eq, Structural)]
pub struct EnsureRetryPolicy {
    /// Attempts, the first one counted.
    pub attempts: u32,
    /// Pause after the first failure, in nanoseconds; it doubles with each further one.
    pub initial_backoff_ns: u128,
}

impl Default for EnsureRetryPolicy {
    fn default() -> (r: Self)
        ensures
            r.attempts == ENSURE_ATTEMPTS,
            r.initial_backoff_ns == ENSURE_BACKOFF_NS,
    {
        EnsureRetryPolicy { attempts: ENSURE_ATTEMPTS, initial_backoff_ns: ENSURE_BACKOFF_NS }
    }
}

/// What follows an attempt.
#[derive(Debug, PartialEq, Eq)]
pub enum RetryStep {
    Succeeded,
    /// Pause for so many nanoseconds, then try again.
    Retry(u128),
    /// Give up, for this reason.
    Failed(String),
}

/// Contents of [`RetryStep`].
pub enum RetryStepView {
    Succeeded,
    Retry(u128),
    Failed(Seq<char>),
}

impl View for RetryStep {
    type V = RetryStepView;

    open spec fn view(&self) -> RetryStepView {
        match *self {
            RetryStep::Succeeded => RetryStepView::Succeeded,
            RetryStep::Retry(ns) => RetryStepView::Retry(ns),
            RetryStep::Failed(text) => RetryStepView::Failed(text@),
        }
    }
}

/// Attempts at an identity under way.
#[derive(Debug, Clone, Copy, PartialEq, Eq, Structural)]
pub struct EnsureRetry {
    attempts: u32,
    attempt: u32,
    backoff_ns: u128,
}

/// Contents of [`EnsureRetry`].
pub struct RetryView {
    /// How many attempts there are at most.
    pub allowed: u32,
    /// Number of the attempt under way, counted from one.
    pub current: u32,
    /// The next pause, in nanoseconds.
    pub pause: u128,
}

/// A pause, or the longest one there is where it is longer.
pub open spec fn bounded_pause(ns: int) -> u128 {
    if ns > MAX_PAUSE_NS {
        MAX_PAUSE_NS
    } else {
        ns as u128
    }
}

/// Twice as long, up to the longest pause there is.
pub open spec fn doubled(ns: u128) -> u128 {
    bounded_pause(2 * ns)
}

/// Why an identity was given up.
pub open spec fn given_up_text(attempts: u32, error: Seq<char>) -> Seq<char> {
    "identity ensure failed after "@ + text::decimal(attempts as nat) + " attempt(s): "@ + error
}

/// The first of at least one attempt.
pub open spec fn first_attempt(policy: EnsureRetryPolicy) -> RetryView {
    RetryView {
        allowed: if policy.attempts == 0 {
            1
        } else {
            policy.attempts
        },
        current: 1,
        pause: bounded_pause(policy.initial_backoff_ns as int),
    }
}

/// What follows an attempt.
pub open spec fn retry_next(run: RetryView, error: Option<Seq<char>>) -> (RetryView, RetryStepView) {
    match error {
        None => (run, RetryStepView::Succeeded),
        Some(e) => if run.current >= run.allowed {
            (run, RetryStepView::Failed(given_up_text(run.allowed, e)))
        } else {
            (
                RetryView {
                    current: (run.current + 1) as u32,
                    pause: doubled(run.pause),
                    ..run
                },
                RetryStepView::Retry(run.pause),
            )
        },
    }
}

impl View for EnsureRetry {
    type V = RetryView;

    closed spec fn view(&self) -> RetryView {
        RetryView { allowed: self.attempts, current: self.attempt, pause: self.backoff_ns }
    }
}

impl EnsureRetry {
    #[verifier::type_invariant]
    closed spec fn wf(&self) -> bool {
        &&& 1 <= self.attempt <= self.attempts
        &&& self.backoff_ns <= MAX_PAUSE_NS
    }

    /// The first of at least one attempt.
    pub fn new(policy: EnsureRetryPolicy) -> (r: Self)
        ensures
            r@ == first_attempt(policy),
    {
        let attempts: u32 = if policy.attempts == 0 {
            1
        } else {
            policy.attempts
        };
        let backoff_ns: u128 = if policy.initial_backoff_ns > MAX_PAUSE_NS {
            MAX_PAUSE_NS
        } else {
            policy.initial_backoff_ns
        };
        EnsureRetry { attempts, attempt: 1, backoff_ns }
    }

    /// What follows the attempt under way.
    pub fn attempted(self, outcome: Result<(), String>) -> (r: (Self, RetryStep))
        ensures
            (r.0@, r.1@) == retry_next(self@, crate::plugin::reload::outcome_error(outcome)),
    {
        proof {
            use_type_invariant(&self);
        }
        match outcome {
            Ok(_) => (self, RetryStep::Succeeded),
            Err(e) => {
                if self.attempt == self.attempts {
                    let number = decimal_text(self.attempts as u64);
                    let mut text = join3(
                        "identity ensure failed after ",
                        number.as_str(),
                        " attempt(s): ",
                    );
                    text.append(e.as_str());
                    (self, RetryStep::Failed(text))
                } else {
                    let longer: u128 = if self.backoff_ns > MAX_PAUSE_NS / 2 {
                        MAX_PAUSE_NS
                    } else {
                        2 * self.backoff_ns
                    };
                    (
                        EnsureRetry {
                            attempts: self.attempts,
                            attempt: self.attempt + 1,
                            backoff_ns: longer,
                        },
                        RetryStep::Retry(self.backoff_ns),
                    )
                }
            },
        }
    }
}

/// The last attempt of a run and what it came to, given how each attempt turns out.
pub open spec fn retry_end(run: RetryView, o: spec_fn(int) -> Option<Seq<char>>) -> (
    RetryView,
    RetryStepView,
)
    decreases run.allowed - run.current,
{
    let (next, step) = retry_next(run, o(run.current as int));
    if step is Retry {
        retry_end(next, o)
    } else {
        (next, step)
    }
}

/// Retries are bounded: a run succeeds exactly where one of the allowed attempts does, at the
/// first that does, and gives up after the last one with that one's failure otherwise.
pub proof fn law_retries_are_bounded(run: RetryView, o: spec_fn(int) -> Option<Seq<char>>)
    requires
        1 <= run.current <= run.allowed,
    ensures
        ({
            let (end, step) = retry_end(run, o);
            &&& run.current <= end.current <= run.allowed
            &&& forall|i: int| run.current <= i < end.current ==> #[trigger] o(i) is Some
            &&& match step {
                RetryStepView::Succeeded => o(end.current as int) is None,
                RetryStepView::Failed(text) => end.current == run.allowed && (o(
                    run.allowed as int,
                ) matches Some(e) && text == given_up_text(run.allowed, e)),
                RetryStepView::Retry(_) => false,
            }
        }),
    decreases run.allowed - run.current,
{
    let (next, step) = retry_next(run, o(run.current as int));
    if step is Retry {
        law_retries_are_bounded(next, o);
        let (end, last) = retry_end(next, o);
        assert forall|i: int| run.current <= i < end.current implies #[trigger] o(i) is Some by {
            if i != run.current {
                assert(next.current <= i);
            }
        }
    }
}

/// The pause after a number of failures.
pub open spec fn pause_after(initial: u128, failures: nat) -> u128
    decreases failures,
{
    if failures <= 1 {
        initial
    } else {
        doubled(pause_after(initial, (failures - 1) as nat))
    }
}

/// All pauses of a run that fails a number of times.
pub open spec fn total_pause(initial: u128, failures: nat) -> int
    decreases failures,
{
    if failures == 0 {
        0
    } else {
        total_pause(initial, (failures - 1) as nat) + pause_after(initial, failures)
    }
}

/// By default an identity that keeps failing is tried for five times, and all pauses together
/// last three seconds.
pub proof fn law_default_retries_are_bounded()
    ensures
        ENSURE_ATTEMPTS == 5,
        pause_after(ENSURE_BACKOFF_NS, 1) == 200_000_000,
        pause_after(ENSURE_BACKOFF_NS, 2) == 400_000_000,
        pause_after(ENSURE_BACKOFF_NS, 3) == 800_000_000,
        pause_after(ENSURE_BACKOFF_NS, 4) == 1_600_000_000,
        total_pause(ENSURE_BACKOFF_NS, (ENSURE_ATTEMPTS - 1) as nat) == 3_000_000_000,
{
    reveal_with_fuel(pause_after, 5);
    reveal_with_fuel(total_pause, 5);
}

// ---- renewal ----

/// Seconds of the epoch; zero where the clock is before it or too far beyond.
pub fn now_secs(since_epoch: Option<u64>) -> (r: i64)
    ensures
        r == match since_epoch {
            Some(s) => if s <= i64::MAX {
                s as i64
            } else {
                0
            },
            None => 0,
        },
{
    match since_epoch {
        Some(s) => {
            if s <= i64::MAX as u64 {
                s as i64
            } else {
                0
            }
        },
        None => 0,
    }
}

/// How long a credential is left alone, in seconds.
pub open spec fn renewal_pause(expires_at: i64, now: i64) -> int {
    if expires_at == 0 {
        UNKNOWN_EXPIRY_INTERVAL_SECS as int
    } else if expires_at - now - RENEW_LEAD_SECS < MIN_RENEW_INTERVAL_SECS {
        MIN_RENEW_INTERVAL_SECS as int
    } else {
        expires_at - now - RENEW_LEAD_SECS
    }
}

/// How long a credential is left alone, in seconds: until shortly before it expires, and never
/// less than the shortest pause.
pub fn renewal_delay(expires_at: i64, now: i64) -> (r: u64)
    requires
        i64::MIN <= expires_at - now <= i64::MAX,
        i64::MIN <= expires_at - now - RENEW_LEAD_SECS,
    ensures
        r == renewal_pause(expires_at, now),
{
    if expires_at == 0 {
        return UNKNOWN_EXPIRY_INTERVAL_SECS;
    }
    let lead: i64 = expires_at - now - RENEW_LEAD_SECS;
    if lead < MIN_RENEW_INTERVAL_SECS as i64 {
        MIN_RENEW_INTERVAL_SECS
    } else {
        lead as u64
    }
}

/// Where the renewal of a credential stands.
#[derive(Debug, Clone, Copy, PartialEq, Eq, Structural)]
pub enum RenewalPhase {
    /// The credential is left alone.
    Resting,
    /// It is renewed with the refresh token.
    Refreshing,
    /// It is renewed with the password.
    Authenticating,
    /// Both failed; the next round waits.
    BackingOff,
}

/// The renewal of a credential.
#[derive(Debug)]
pub struct RenewalRun {
    phase: RenewalPhase,
    credential: Option<String>,
    refresh_token: Option<String>,
    expires_at: i64,
}

/// Contents of [`RenewalRun`].
pub struct RenewalView {
    pub phase: RenewalPhase,
    /// The credential to call with; none where the last renewal failed.
    pub credential: Option<Seq<char>>,
    pub refresh_token: Option<Seq<char>>,
    pub expires_at: i64,
}

/// A credential that was just issued.
pub open spec fn renewed(t: IssuedToken) -> RenewalView {
    RenewalView {
        phase: RenewalPhase::Resting,
        credential: Some(t.cct@),
        refresh_token: crate::plugin::reload::opt_text(t.refresh_token),
        expires_at: t.expires_at,
    }
}

/// The renewal when the pause is over: the refresh token first, where there is one.
pub open spec fn renewal_due(run: RenewalView) -> RenewalView {
    if run.phase is Resting {
        RenewalView {
            phase: if run.refresh_token is Some {
                RenewalPhase::Refreshing
            } else {
                RenewalPhase::Authenticating
            },
            ..run
        }
    } else {
        run
    }
}

/// The renewal after an answer: a refresh that fails leads to the password, a password that fails
/// leaves no credential.
pub open spec fn renewal_answered(run: RenewalView, issued: Result<IssuedToken, String>) -> RenewalView {
    match (run.phase, issued) {
        (RenewalPhase::Refreshing, Ok(t)) => renewed(t),
        (RenewalPhase::Refreshing, Err(_)) => RenewalView {
            phase: RenewalPhase::Authenticating,
            ..run
        },
        (RenewalPhase::Authenticating, Ok(t)) => renewed(t),
        (RenewalPhase::Authenticating, Err(_)) => RenewalView {
            phase: RenewalPhase::BackingOff,
            credential: None,
            ..run
        },
        _ => run,
    }
}

impl View for RenewalRun {
    type V = RenewalView;

    closed spec fn view(&self) -> RenewalView {
        RenewalView {
            phase: self.phase,
            credential: crate::plugin::reload::opt_text(self.credential),
            refresh_token: crate::plugin::reload::opt_text(self.refresh_token),
            expires_at: self.expires_at,
        }
    }
}

impl RenewalRun {
    /// The renewal of a credential that was just issued.
    pub fn new(issued: IssuedToken) -> (r: Self)
        ensures
            r@ == renewed(issued),
    {
        RenewalRun {
            phase: RenewalPhase::Resting,
            credential: Some(issued.cct),
            refresh_token: issued.refresh_token,
            expires_at: issued.expires_at,
        }
    }

    /// Where the renewal stands.
    pub fn phase(&self) -> (r: RenewalPhase)
        ensures
            r == self@.phase,
    {
        self.phase
    }

    /// The credential to call with; none where the last renewal failed.
    pub fn credential(&self) -> (r: Option<&String>)
        ensures
            match r {
                Some(c) => self@.credential == Some(c@),
                None => self@.credential is None,
            },
    {
        self.credential.as_ref()
    }

    /// The refresh token.
    pub fn refresh_token(&self) -> (r: Option<&String>)
        ensures
            match r {
                Some(t) => self@.refresh_token == Some(t@),
                None => self@.refresh_token is None,
            },
    {
        self.refresh_token.as_ref()
    }

    /// Expiry of the credential.
    pub fn expires_at(&self) -> (r: i64)
        ensures
            r == self@.expires_at,
    {
        self.expires_at
    }

    /// The renewal when the pause is over.
    pub fn due(self) -> (r: Self)
        ensures
            r@ == renewal_due(self@),
    {
        if let RenewalPhase::Resting = self.phase {
            let phase = if self.refresh_token.is_some() {
                RenewalPhase::Refreshing
            } else {
                RenewalPhase::Authenticating
            };
            RenewalRun {
                phase,
                credential: self.credential,
                refresh_token: self.refresh_token,
                expires_at: self.expires_at,
            }
        } else {
            self
        }
    }

    /// The renewal after an answer.
    pub fn answered(self, issued: Result<IssuedToken, String>) -> (r: Self)
        ensures
            r@ == renewal_answered(self@, issued),
    {
        match self.phase {
            RenewalPhase::Refreshing => match issued {
                Ok(t) => RenewalRun::new(t),
                Err(_) => RenewalRun {
                    phase: RenewalPhase::Authenticating,
                    credential: self.credential,
                    refresh_token: self.refresh_token,
                    expires_at: self.expires_at,
                },
            },
            RenewalPhase::Authenticating => match issued {
                Ok(t) => RenewalRun::new(t),
                Err(_) => RenewalRun {
                    phase: RenewalPhase::BackingOff,
                    credential: None,
                    refresh_token: self.refresh_token,
                    expires_at: self.expires_at,
                },
            },
            _ => self,
        }
    }

    /// The renewal after the pause that follows a failure: it is due again soon.
    pub fn backed_off(self, now: i64) -> (r: Self)
        requires
            now + FAILED_RENEWAL_BACKOFF_SECS <= i64::MAX,
        ensures
            r@ == if self@.phase is BackingOff {
                RenewalView {
                    phase: RenewalPhase::Resting,
                    expires_at: (now + FAILED_RENEWAL_BACKOFF_SECS) as i64,
                    ..self@
                }
            } else {
                self@
            },
    {
        if let RenewalPhase::BackingOff = self.phase {
            RenewalRun {
                phase: RenewalPhase::Resting,
                credential: self.credential,
                refresh_token: self.refresh_token,
                expires_at: now + FAILED_RENEWAL_BACKOFF_SECS,
            }
        } else {
            self
        }
    }
}

/// A round of renewal: the refresh token first, the password where that fails.
pub open spec fn renewal_round(
    run: RenewalView,
    refresh: Result<IssuedToken, String>,
    password: Result<IssuedToken, String>,
) -> RenewalView {
    let due = renewal_due(run);
    if due.phase is Refreshing {
        let first = renewal_answered(due, refresh);
        if first.phase is Authenticating {
            renewal_answered(first, password)
        } else {
            first
        }
    } else {
        renewal_answered(due, password)
    }
}

/// A round leaves the credential of the first way that works, and none where neither does: an
/// expired credential is never kept.
pub proof fn law_renewal_falls_back_to_the_password(
    run: RenewalView,
    refresh: Result<IssuedToken, String>,
    password: Result<IssuedToken, String>,
)
    requires
        run.phase is Resting,
    ensures
        ({
            let end = renewal_round(run, refresh, password);
            match (run.refresh_token, refresh, password) {
                (Some(_), Ok(t), _) => end == renewed(t),
                (_, _, Ok(t)) => end == renewed(t),
                _ => end.credential is None && end.phase is BackingOff,
            }
        }),
{
}

// ---- clients ----

/// Where the client for a plugin's calls comes from.
pub trait PluginClientSource<C> {
    /// The client for a plugin's calls.
    fn client_for(&self, plugin: &str) -> &C;
}

/// One client for all plugins.
#[derive(Debug)]
pub struct SharedPluginClients<C> {
    fallback: C,
}

impl<C> SharedPluginClients<C> {
    /// The client that all share.
    pub closed spec fn shared(&self) -> C {
        self.fallback
    }

    /// One client for all plugins.
    pub fn new(client: C) -> (r: Self)
        ensures
            r.shared() == client,
    {
        SharedPluginClients { fallback: client }
    }
}

impl<C> PluginClientSource<C> for SharedPluginClients<C> {
    fn client_for(&self, plugin: &str) -> (r: &C)
        ensures
            *r == self.shared(),
    {
        &self.fallback
    }
}

/// A client for each plugin with an account, and one for the others.
#[derive(Debug)]
pub struct PluginClients<C> {
    fallback: C,
    accounts: NameMap<C>,
}

/// The client for a plugin's calls.
pub open spec fn client_of<C>(accounts: Map<Seq<char>, C>, fallback: C, plugin: Seq<char>) -> C {
    if accounts.dom().contains(plugin) {
        accounts[plugin]
    } else {
        fallback
    }
}

impl<C> PluginClients<C> {
    /// The client of plugins without an account.
    pub closed spec fn shared(&self) -> C {
        self.fallback
    }

    /// The clients of plugins with an account.
    pub closed spec fn accounts(&self) -> Map<Seq<char>, C> {
        self.accounts@
    }

    /// No plugin has an account yet.
    pub fn new(fallback: C) -> (r: Self)
        ensures
            r.shared() == fallback,
            r.accounts() == Map::<Seq<char>, C>::empty(),
    {
        PluginClients { fallback, accounts: NameMap::new() }
    }

    /// Sets the client of a plugin's account.
    pub fn insert(&mut self, plugin: &str, client: C)
        ensures
            final(self).shared() == old(self).shared(),
            final(self).accounts() == old(self).accounts().insert(plugin@, client),
    {
        let _ = self.accounts.insert(plugin.to_owned(), client);
    }

    /// Drops the client of a plugin's account.
    pub fn remove(&mut self, plugin: &str)
        ensures
            final(self).shared() == old(self).shared(),
            final(self).accounts() == old(self).accounts().remove(plugin@),
    {
        let _ = self.accounts.remove(plugin);
    }

    /// How many plugins have an account.
    pub fn len(&self) -> (r: usize)
        ensures
            self.accounts().dom().finite(),
            r == self.accounts().dom().len(),
    {
        self.accounts.len()
    }

    /// Whether no plugin has an account.
    pub fn is_empty(&self) -> (r: bool)
        ensures
            r == (self.accounts().dom().len() == 0),
    {
        self.accounts.len() == 0
    }
}

impl<C> PluginClientSource<C> for PluginClients<C> {
    fn client_for(&self, plugin: &str) -> (r: &C)
        ensures
            *r == client_of(self.accounts(), self.shared(), plugin@),
    {
        match self.accounts.get(plugin) {
            Some(client) => client,
            None => &self.fallback,
        }
    }
}

/// Identities of plugins: the gateway that provisions accounts, the clients of accounts and the
/// renewals under way.
#[derive(Debug)]
pub struct PluginIdentityManager<G, C, H> {
    gateway: G,
    clients: PluginClients<C>,
    renewals: NameMap<H>,
    provisioner: Option<G>,
    provisioner_renewal: Option<H>,
}

/// The gateway that provisions accounts: a provisioner's session where there is one.
pub open spec fn acting_gateway<G>(own: G, provisioner: Option<G>) -> G {
    match provisioner {
        Some(g) => g,
        None => own,
    }
}

impl<G, C, H> PluginIdentityManager<G, C, H> {
    /// The manager's own gateway, with which accounts sign in.
    pub closed spec fn own(&self) -> G {
        self.gateway
    }

    /// The session of the provisioning account.
    pub closed spec fn provisioner(&self) -> Option<G> {
        self.provisioner
    }

    /// The renewal of that session.
    pub closed spec fn session_renewal(&self) -> Option<H> {
        self.provisioner_renewal
    }

    /// The clients of accounts.
    pub closed spec fn known_clients(&self) -> PluginClients<C> {
        self.clients
    }

    /// The renewals of accounts.
    pub closed spec fn running(&self) -> Map<Seq<char>, H> {
        self.renewals@
    }

    /// A manager without accounts.
    pub fn new(gateway: G, clients: PluginClients<C>) -> (r: Self)
        ensures
            r.own() == gateway,
            r.known_clients() == clients,
            r.provisioner() is None,
            r.session_renewal() is None,
            r.running() == Map::<Seq<char>, H>::empty(),
    {
        PluginIdentityManager {
            gateway,
            clients,
            renewals: NameMap::new(),
            provisioner: None,
            provisioner_renewal: None,
        }
    }

    /// The manager's own gateway, with which accounts sign in.
    pub fn sign_in_gateway(&self) -> (r: &G)
        ensures
            *r == self.own(),
    {
        &self.gateway
    }

    /// Where the clients for plugins' calls come from.
    pub fn client_source(&self) -> (r: &PluginClients<C>)
        ensures
            *r == self.known_clients(),
    {
        &self.clients
    }

    /// Whether there is a provisioner's session.
    pub fn provisioner_active(&self) -> (r: bool)
        ensures
            r == self.provisioner() is Some,
    {
        self.provisioner.is_some()
    }

    /// The gateway that provisions accounts.
    pub fn active_gateway(&self) -> (r: &G)
        ensures
            *r == acting_gateway(self.own(), self.provisioner()),
    {
        match &self.provisioner {
            Some(g) => g,
            None => &self.gateway,
        }
    }

    /// Lets a provisioner's session provision accounts from now on, and returns the renewal of
    /// the session before it, which is to end.
    pub fn adopt_provisioner(&mut self, gateway: G, renewal: Option<H>) -> (r: Option<H>)
        ensures
            final(self).own() == old(self).own(),
            final(self).known_clients() == old(self).known_clients(),
            final(self).running() == old(self).running(),
            final(self).provisioner() == Some(gateway),
            final(self).session_renewal() == renewal,
            r == old(self).session_renewal(),
    {
        let mut earlier = renewal;
        std::mem::swap(&mut earlier, &mut self.provisioner_renewal);
        self.provisioner = Some(gateway);
        earlier
    }

    /// Ends the provisioner's session, and returns its renewal, which is to end.
    pub fn forget_provisioner(&mut self) -> (r: Option<H>)
        ensures
            final(self).own() == old(self).own(),
            final(self).known_clients() == old(self).known_clients(),
            final(self).running() == old(self).running(),
            final(self).provisioner() is None,
            final(self).session_renewal() is None,
            r == old(self).session_renewal(),
    {
        let mut earlier: Option<H> = None;
        std::mem::swap(&mut earlier, &mut self.provisioner_renewal);
        self.provisioner = None;
        earlier
    }

    /// Sets the client of a plugin whose account signed in.
    pub fn register_client(&mut self, plugin: &str, client: C)
        ensures
            final(self).own() == old(self).own(),
            final(self).provisioner() == old(self).provisioner(),
            final(self).session_renewal() == old(self).session_renewal(),
            final(self).running() == old(self).running(),
            final(self).known_clients().shared() == old(self).known_clients().shared(),
            final(self).known_clients().accounts() == old(self).known_clients().accounts().insert(
                plugin@,
                client,
            ),
    {
        self.clients.insert(plugin, client);
    }

    /// Keeps the renewal of a plugin's credential, and returns the one before it, which is to end.
    pub fn register_renewal(&mut self, plugin: &str, renewal: H) -> (r: Option<H>)
        ensures
            final(self).own() == old(self).own(),
            final(self).provisioner() == old(self).provisioner(),
            final(self).session_renewal() == old(self).session_renewal(),
            final(self).known_clients() == old(self).known_clients(),
            final(self).running() == old(self).running().insert(plugin@, renewal),
            r is Some <==> old(self).running().dom().contains(plugin@),
            r matches Some(h) ==> h == old(self).running()[plugin@],
    {
        self.renewals.insert(plugin.to_owned(), renewal)
    }

    /// Drops a plugin's identity, and returns its renewal, which is to end.
    pub fn forget(&mut self, plugin: &str) -> (r: Option<H>)
        ensures
            final(self).own() == old(self).own(),
            final(self).provisioner() == old(self).provisioner(),
            final(self).session_renewal() == old(self).session_renewal(),
            final(self).running() == old(self).running().remove(plugin@),
            final(self).known_clients().shared() == old(self).known_clients().shared(),
            final(self).known_clients().accounts() == old(self).known_clients().accounts().remove(
                plugin@,
            ),
            r is Some <==> old(self).running().dom().contains(plugin@),
            r matches Some(h) ==> h == old(self).running()[plugin@],
    {
        let renewal = self.renewals.remove(plugin);
        self.clients.remove(plugin);
        renewal
    }
}

/// A plugin calls with its own client from the registration of its account until it is forgotten,
/// and with the shared one before and after; other plugins are not affected.
pub proof fn law_identity_lasts_until_forgotten<C>(
    accounts: Map<Seq<char>, C>,
    fallback: C,
    plugin: Seq<char>,
    client: C,
)
    ensures
        client_of(accounts.insert(plugin, client), fallback, plugin) == client,
        client_of(accounts.insert(plugin, client).remove(plugin), fallback, plugin) == fallback,
        forall|other: Seq<char>|
            other != plugin ==> #[trigger] client_of(
                accounts.insert(plugin, client).remove(plugin),
                fallback,
                other,
            ) == client_of(accounts, fallback, other),
{
}

/// Two plugins never share a user, a role or a password.
pub proof fn law_accounts_are_separate(a: Seq<char>, b: Seq<char>)
    ensures
        "plugin/"@ + a == "plugin/"@ + b <==> a == b,
        "plugin/"@ + a + "-role"@ == "plugin/"@ + b + "-role"@ <==> a == b,
        "plugin-"@ + a == "plugin-"@ + b <==> a == b,
{
    let slash = "plugin/"@;
    let dash = "plugin-"@;
    let tail = "-role"@;
    if slash + a == slash + b {
        assert(a =~= (slash + a).skip(slash.len() as int));
        assert(b =~= (slash + b).skip(slash.len() as int));
    }
    if dash + a == dash + b {
        assert(a =~= (dash + a).skip(dash.len() as int));
        assert(b =~= (dash + b).skip(dash.len() as int));
    }
    if slash + a + tail == slash + b + tail {
        let x = slash + a + tail;
        let y = slash + b + tail;
        assert(x.len() == slash.len() + a.len() + tail.len());
        assert(y.len() == slash.len() + b.len() + tail.len());
        assert(a =~= x.subrange(slash.len() as int, x.len() - tail.len()));
        assert(b =~= y.subrange(slash.len() as int, y.len() - tail.len()));
    }
}

/// The agent's own account manages no accounts, and the provisioning account touches no data: no
/// grant of the one is of the other's kind.
pub proof fn law_agent_accounts_have_separate_powers(i: int, j: int)
    requires
        0 <= i < self_grants().len(),
        0 <= j < provisioner_grants().len(),
    ensures
        text::begins_with(self_grants()[i].0, "data:"@),
        !text::begins_with(self_grants()[i].0, "admin:"@),
        text::begins_with(provisioner_grants()[j].0, "admin:auth:"@),
        !text::begins_with(provisioner_grants()[j].0, "data:"@),
{
    lemma_data_capabilities();
    lemma_admin_capabilities();
    if i < 48 {
        assert(self_grants()[i].0 == SELF_KEYSPACE_OPERATIONS[i % 4]@);
    } else {
        assert(self_grants()[i].0 == SELF_UNSCOPED_GRANTS[i - 48]@);
    }
    assert(provisioner_grants()[j].0 == PROVISIONER_CAPABILITY_GRANTS[j].0@);
}

proof fn lemma_head(s: Seq<char>, head: Seq<char>)
    requires
        head.len() <= s.len(),
        forall|k: int| 0 <= k < head.len() ==> s[k] == head[k],
    ensures
        text::begins_with(s, head),
{
    assert(s.subrange(0, head.len() as int) =~= head);
}

proof fn lemma_other_head(s: Seq<char>, head: Seq<char>)
    requires
        head.len() > 0,
        s.len() > 0,
        s[0] != head[0],
    ensures
        !text::begins_with(s, head),
{
    if text::begins_with(s, head) {
        assert(s.subrange(0, head.len() as int)[0] == head[0]);
    }
}

proof fn lemma_data_capabilities()
    ensures
        forall|k: int|
            0 <= k < 4 ==> text::begins_with(#[trigger] SELF_KEYSPACE_OPERATIONS[k]@, "data:"@)
                && !text::begins_with(SELF_KEYSPACE_OPERATIONS[k]@, "admin:"@),
        forall|k: int|
            0 <= k < 3 ==> text::begins_with(#[trigger] SELF_UNSCOPED_GRANTS[k]@, "data:"@)
                && !text::begins_with(SELF_UNSCOPED_GRANTS[k]@, "admin:"@),
{
    reveal_strlit("data:");
    reveal_strlit("admin:");
    reveal_strlit("data:kv:read");
    reveal_strlit("data:kv:write");
    reveal_strlit("data:kv:delete");
    reveal_strlit("data:txn:execute");
    reveal_strlit("data:lease:keepalive");
    reveal_strlit("data:lease:revoke");
    reveal_strlit("data:watch:subscribe");
    assert forall|k: int| 0 <= k < 4 implies text::begins_with(
        #[trigger] SELF_KEYSPACE_OPERATIONS[k]@,
        "data:"@,
    ) && !text::begins_with(SELF_KEYSPACE_OPERATIONS[k]@, "admin:"@) by {
        lemma_head(SELF_KEYSPACE_OPERATIONS[k]@, "data:"@);
        lemma_other_head(SELF_KEYSPACE_OPERATIONS[k]@, "admin:"@);
    }
    assert forall|k: int| 0 <= k < 3 implies text::begins_with(
        #[trigger] SELF_UNSCOPED_GRANTS[k]@,
        "data:"@,
    ) && !text::begins_with(SELF_UNSCOPED_GRANTS[k]@, "admin:"@) by {
        lemma_head(SELF_UNSCOPED_GRANTS[k]@, "data:"@);
        lemma_other_head(SELF_UNSCOPED_GRANTS[k]@, "admin:"@);
    }
}

proof fn lemma_admin_capabilities()
    ensures
        forall|k: int|
            0 <= k < 5 ==> text::begins_with(#[trigger] PROVISIONER_CAPABILITY_GRANTS[k].0@, "admin:auth:"@)
                && !text::begins_with(PROVISIONER_CAPABILITY_GRANTS[k].0@, "data:"@),
{
    reveal_strlit("data:");
    reveal_strlit("admin:auth:");
    reveal_strlit("admin:auth:user_add");
    reveal_strlit("admin:auth:role_add");
    reveal_strlit("admin:auth:role_grant");
    reveal_strlit("admin:auth:user_grant_role");
    reveal_strlit("admin:auth:role_list");
    assert forall|k: int| 0 <= k < 5 implies text::begins_with(
        #[trigger] PROVISIONER_CAPABILITY_GRANTS[k].0@,
        "admin:auth:"@,
    ) && !text::begins_with(PROVISIONER_CAPABILITY_GRANTS[k].0@, "data:"@) by {
        lemma_head(PROVISIONER_CAPABILITY_GRANTS[k].0@, "admin:auth:"@);
        lemma_other_head(PROVISIONER_CAPABILITY_GRANTS[k].0@, "data:"@);
    }
}

} // verus!
