//! What accounts amount to: what they may do, how they are set up and signed in, and how long a
//! credential lasts.
use crate::plugin::identity;
use crate::plugin::identity::{
    as_plugin_capabilities, ignore_exists, now_secs, password_of, plugin_account,
    provisioner_account, provisioner_capability_grants, renewal_delay, self_account,
    self_capability_grants, stored_password, stored_secret, Account, EnsureRetry,
    EnsureRetryPolicy, IssuedToken, PluginClientSource, PluginClients, PluginIdentityManager,
    ProvisionAction, ProvisionRun, RenewalRun, RetryStep,
};
use crate::plugin::manifest::PluginCapability;
use crate::plugin::sign_in::{EnsureRun, EnsureView, ServiceSignIn, ServiceView, SignInAction};
use crate::text;
use vstd::prelude::*;
use vstd::utf8::*;

verus! {

// ---- what the agent's accounts may do ----

/// The key spaces in which the agent keeps its own records, and what it does in each of them.
pub proof fn law_the_agent_keeps_to_its_key_spaces()
    ensures
        identity::SELF_KEYSPACES[0]@ == "lock"@,
        identity::SELF_KEYSPACES[1]@ == "registry"@,
        identity::SELF_KEYSPACES[2]@ == "config"@,
        identity::SELF_KEYSPACES[3]@ == "idgen"@,
        identity::SELF_KEYSPACES[4]@ == "election"@,
        identity::SELF_KEYSPACES[5]@ == "workflow"@,
        identity::SELF_KEYSPACES[6]@ == "pki"@,
        identity::SELF_KEYSPACES[7]@ == "policy"@,
        identity::SELF_KEYSPACES[8]@ == "transit"@,
        identity::SELF_KEYSPACES[9]@ == "events"@,
        identity::SELF_KEYSPACES[10]@ == "featureflags"@,
        identity::SELF_KEYSPACES[11]@ == "scheduler"@,
        identity::SELF_KEYSPACE_OPERATIONS[0]@ == "data:kv:read"@,
        identity::SELF_KEYSPACE_OPERATIONS[1]@ == "data:kv:write"@,
        identity::SELF_KEYSPACE_OPERATIONS[2]@ == "data:kv:delete"@,
        identity::SELF_KEYSPACE_OPERATIONS[3]@ == "data:txn:execute"@,
{
}

/// The agent's own account may read, write, delete and execute transactions below each of its key
/// spaces, and keep leases alive, revoke them and subscribe without bounds; and nothing else.
pub proof fn law_the_agent_may_work_in_its_key_spaces(r: Vec<(String, String)>, space: int, op: int)
    requires
        call_ensures(self_capability_grants, (), r),
        0 <= space < 12,
        0 <= op < 4,
    ensures
        r@.len() == 51,
        r@[4 * space + op].0@ == identity::SELF_KEYSPACE_OPERATIONS[op]@,
        r@[4 * space + op].1@ == "/_"@ + identity::SELF_KEYSPACES[space]@ + "/*"@,
        r@[48].0@ == "data:lease:keepalive"@ && r@[48].1@.len() == 0,
        r@[49].0@ == "data:lease:revoke"@ && r@[49].1@.len() == 0,
        r@[50].0@ == "data:watch:subscribe"@ && r@[50].1@.len() == 0,
{
    let all = identity::grant_views(r@);
    assert(all.len() == r@.len());
    let n = 4 * space + op;
    assert(n / 4 == space && n % 4 == op);
    assert(all[n] == (r@[n].0@, r@[n].1@));
    assert(all[48] == (r@[48].0@, r@[48].1@));
    assert(all[49] == (r@[49].0@, r@[49].1@));
    assert(all[50] == (r@[50].0@, r@[50].1@));
}

/// The provisioning account may add users and roles, grant capabilities to roles and roles to
/// users, and list roles; and nothing else.
pub proof fn law_the_provisioner_may_manage_accounts(r: Vec<(String, String)>)
    requires
        call_ensures(provisioner_capability_grants, (), r),
    ensures
        r@.len() == 5,
        r@[0].0@ == "admin:auth:user_add"@,
        r@[1].0@ == "admin:auth:role_add"@,
        r@[2].0@ == "admin:auth:role_grant"@,
        r@[3].0@ == "admin:auth:user_grant_role"@,
        r@[4].0@ == "admin:auth:role_list"@,
{
    let all = identity::grant_views(r@);
    assert(all.len() == r@.len());
    assert(all[0] == (r@[0].0@, r@[0].1@));
    assert(all[1] == (r@[1].0@, r@[1].1@));
    assert(all[2] == (r@[2].0@, r@[2].1@));
    assert(all[3] == (r@[3].0@, r@[3].1@));
    assert(all[4] == (r@[4].0@, r@[4].1@));
}

/// Two plugins have different users, roles and passwords.
pub proof fn law_plugins_have_accounts_of_their_own(a: &str, b: &str, x: Account, y: Account)
    requires
        a@ != b@,
        call_ensures(plugin_account, (a,), x),
        call_ensures(plugin_account, (b,), y),
    ensures
        x.user@ != y.user@,
        x.role@ != y.role@,
        x.key_id@ != y.key_id@,
        x.user@ == "plugin/"@ + a@,
        x.role@ == "plugin/"@ + a@ + "-role"@,
        x.key_id@ == "plugin-"@ + a@,
{
    identity::law_accounts_are_separate(a@, b@);
}

/// The agent's accounts go by the user that is given, which must have a name.
pub proof fn law_service_accounts_have_a_user(
    user: &str,
    provisioner: Result<Account, String>,
    own: Result<Account, String>,
)
    requires
        call_ensures(provisioner_account, (user,), provisioner),
        call_ensures(self_account, (user,), own),
    ensures
        provisioner is Ok <==> !text::blank(user@),
        own is Ok <==> !text::blank(user@),
        provisioner matches Ok(a) ==> a.user@ == user@ && a.role@ == user@ + "-role"@ && a.key_id@
            == "provisioner-"@ + user@,
        own matches Ok(a) ==> a.user@ == user@ && a.role@ == "agent-self-role"@ && a.key_id@
            == "self-"@ + user@,
{
}

// ---- passwords ----

/// A stored password that is text and not empty is used again; in all other cases there is a new
/// one, of the hexadecimal digits of 32 bytes.
pub proof fn law_stored_passwords_are_used_again(stored: Option<Vec<u8>>, r: (String, bool))
    requires
        call_ensures(stored_secret, (stored,), r),
    ensures
        !r.1 <==> (stored matches Some(b) && valid_utf8(b@) && decode_utf8(b@).len() > 0),
        !r.1 ==> r.0@ == decode_utf8((stored->0)@),
        r.1 ==> r.0@.len() == 64,
{
}

/// What is read of a stored password is that password, where it can be used.
pub proof fn law_usable_passwords_are_text(stored: Option<Vec<u8>>, r: Option<String>)
    requires
        call_ensures(stored_password, (stored,), r),
    ensures
        r is Some <==> (stored matches Some(b) && valid_utf8(b@) && decode_utf8(b@).len() > 0),
        r matches Some(s) ==> s@ == decode_utf8((stored->0)@),
{
}

// ---- setting accounts up ----

/// A failure is none exactly where its text says, in whatever case, that the thing exists already;
/// any other one stays as it is.
pub proof fn law_existing_things_are_no_failure(e: String, r: Result<(), String>)
    requires
        call_ensures(ignore_exists, (e,), r),
    ensures
        r is Ok <==> text::has_part(text::lowercase(e@), "already exists"@) || text::has_part(
            text::lowercase(e@),
            "alreadyexists"@,
        ),
        r matches Err(f) ==> f@ == e@,
{
}

/// An account is set up in order: its user, its role, each of the capabilities once, and then the
/// role is given to the user.
pub proof fn law_accounts_are_set_up_in_order(run: ProvisionRun, r: ProvisionAction)
    requires
        call_ensures(ProvisionRun::action, (&run,), r),
        0 <= run@.grants,
        0 <= run@.step <= run@.grants + 3,
        run@.grants + 3 <= usize::MAX,
    ensures
        run@.error is Some ==> r is Done,
        run@.error is None ==> {
            &&& run@.step == 0 ==> r is AddUser
            &&& run@.step == 1 ==> r is AddRole
            &&& 2 <= run@.step < run@.grants + 2 ==> (r matches ProvisionAction::Grant(i) && i
                == run@.step - 2)
            &&& run@.step == run@.grants + 2 ==> r is BindRole
            &&& run@.step == run@.grants + 3 ==> r is Done
        },
{
}

/// A step that succeeds, or finds its thing there already, leads to the next one; a failure ends
/// the run and is what it came to.
pub proof fn law_a_failed_step_ends_the_setup(
    run: ProvisionRun,
    outcome: Result<(), String>,
    next: ProvisionRun,
    r: Result<(), String>,
)
    requires
        call_ensures(ProvisionRun::advance, (run, outcome), next),
        call_ensures(ProvisionRun::into_outcome, (next,), r),
        run@.error is None,
        0 <= run@.step < run@.grants + 3,
    ensures
        ({
            let fine = outcome matches Err(e) ==> text::has_part(
                text::lowercase(e@),
                "already exists"@,
            ) || text::has_part(text::lowercase(e@), "alreadyexists"@);
            &&& next@.grants == run@.grants
            &&& fine ==> next@.step == run@.step + 1 && next@.error is None && r is Ok
            &&& !fine ==> next@.step == run@.step && (r matches Err(f) && outcome matches Err(e)
                && f@ == e@)
        }),
{
}

// ---- attempts ----

/// There is at least one attempt, the first one, and the first pause is the one asked for, as long
/// as there is one that long.
pub proof fn law_an_identity_is_tried_for_at_least_once(policy: EnsureRetryPolicy, run: EnsureRetry)
    requires
        call_ensures(EnsureRetry::new, (policy,), run),
    ensures
        run@.current == 1,
        policy.attempts > 0 ==> run@.allowed == policy.attempts,
        policy.attempts == 0 ==> run@.allowed == 1,
        policy.initial_backoff_ns <= identity::MAX_PAUSE_NS ==> run@.pause
            == policy.initial_backoff_ns,
        policy.initial_backoff_ns > identity::MAX_PAUSE_NS ==> run@.pause == identity::MAX_PAUSE_NS,
{
}

/// An attempt that succeeds ends it. One that fails is followed by a pause and another attempt, the
/// next pause twice as long up to the longest there is, as long as attempts are left; the last one
/// that fails ends it with the number of attempts and its own failure.
pub proof fn law_failed_attempts_are_repeated(
    run: EnsureRetry,
    outcome: Result<(), String>,
    r: (EnsureRetry, RetryStep),
)
    requires
        call_ensures(EnsureRetry::attempted, (run, outcome), r),
        1 <= run@.current <= run@.allowed,
        run@.pause <= identity::MAX_PAUSE_NS,
    ensures
        outcome is Ok <==> r.1 is Succeeded,
        r.0@.allowed == run@.allowed,
        outcome matches Err(e) ==> if run@.current < run@.allowed {
            &&& r.1 == RetryStep::Retry(run@.pause)
            &&& r.0@.current == run@.current + 1
            &&& 2 * run@.pause <= identity::MAX_PAUSE_NS ==> r.0@.pause == 2 * run@.pause
            &&& 2 * run@.pause > identity::MAX_PAUSE_NS ==> r.0@.pause == identity::MAX_PAUSE_NS
        } else {
            r.1 matches RetryStep::Failed(why) && why@ == "identity ensure failed after "@
                + text::decimal(run@.allowed as nat) + " attempt(s): "@ + e@
        },
{
}

// ---- renewals ----

/// A credential is left alone until two minutes before it expires, but never for less than half a
/// minute; one whose expiry is unknown is left alone for ten minutes.
pub proof fn law_credentials_are_renewed_before_they_expire(expires_at: i64, now: i64, r: u64)
    requires
        i64::MIN <= expires_at - now <= i64::MAX,
        i64::MIN <= expires_at - now - 120,
        call_ensures(renewal_delay, (expires_at, now), r),
    ensures
        expires_at == 0 ==> r == 600,
        expires_at != 0 && expires_at - now >= 150 ==> now + r == expires_at - 120,
        expires_at != 0 && expires_at - now < 150 ==> r == 30,
{
}

/// A credential that was just issued is at rest, and it is what is called with.
pub proof fn law_issued_credentials_are_used(issued: IssuedToken, run: RenewalRun)
    requires
        call_ensures(RenewalRun::new, (issued,), run),
    ensures
        run@.phase is Resting,
        run@.credential == Some(issued.cct@),
        run@.expires_at == issued.expires_at,
        issued.refresh_token matches Some(t) ==> run@.refresh_token == Some(t@),
        issued.refresh_token is None ==> run@.refresh_token is None,
{
}

/// When its time has come a credential is renewed with the refresh token, where there is one, and
/// otherwise with the password; it is called with in the meantime.
pub proof fn law_due_credentials_are_renewed(run: RenewalRun, next: RenewalRun)
    requires
        call_ensures(RenewalRun::due, (run,), next),
        run@.phase is Resting,
    ensures
        run@.refresh_token is Some ==> next@.phase is Refreshing,
        run@.refresh_token is None ==> next@.phase is Authenticating,
        next@.credential == run@.credential,
        next@.refresh_token == run@.refresh_token,
        next@.expires_at == run@.expires_at,
{
}

/// What a renewal issues is called with from then on. A refresh token that fails leads to the
/// password, and a password that fails leaves nothing to call with.
pub proof fn law_renewals_bring_a_credential_or_none(
    run: RenewalRun,
    issued: Result<IssuedToken, String>,
    next: RenewalRun,
)
    requires
        call_ensures(RenewalRun::answered, (run, issued), next),
        run@.phase is Refreshing || run@.phase is Authenticating,
    ensures
        issued matches Ok(t) ==> next@.phase is Resting && next@.credential == Some(t.cct@)
            && next@.expires_at == t.expires_at,
        issued is Err && run@.phase is Refreshing ==> next@.phase is Authenticating
            && next@.credential == run@.credential,
        issued is Err && run@.phase is Authenticating ==> next@.phase is BackingOff
            && next@.credential is None,
{
}

/// A renewal that failed is due again after a minute.
pub proof fn law_failed_renewals_are_due_again(run: RenewalRun, now: i64, next: RenewalRun)
    requires
        now + 60 <= i64::MAX,
        call_ensures(RenewalRun::backed_off, (run, now), next),
        run@.phase is BackingOff,
    ensures
        next@.phase is Resting,
        next@.expires_at == now + 60,
        next@.credential == run@.credential,
        next@.refresh_token == run@.refresh_token,
{
}

/// The clock reads the seconds of the epoch, and zero where it cannot.
pub proof fn law_the_clock_reads_seconds(since_epoch: Option<u64>, r: i64)
    requires
        call_ensures(now_secs, (since_epoch,), r),
    ensures
        since_epoch matches Some(s) ==> (s <= i64::MAX ==> r == s) && (s > i64::MAX ==> r == 0),
        since_epoch is None ==> r == 0,
{
}

// ---- sign-ins ----

/// A plugin signs in step by step. However setting its account up ends, the password is next;
/// what the password brings leads to the client, and its refusal is the end; and the account is
/// ready once its client is built.
pub proof fn law_plugins_sign_in_with_their_password(
    run: EnsureRun,
    issued: Result<IssuedToken, String>,
    signed: EnsureRun,
    outcome: Result<(), String>,
    end: EnsureRun,
    r: Option<Result<Option<IssuedToken>, String>>,
)
    requires
        run@ is Authenticating,
        call_ensures(EnsureRun::authenticated, (run, issued), signed),
        call_ensures(EnsureRun::connected, (signed, outcome), end),
        call_ensures(EnsureRun::into_outcome, (end,), r),
    ensures
        end.of() == run.of(),
        issued matches Ok(t) ==> signed@ is Connecting && r == Some(
            Ok::<Option<IssuedToken>, String>(
                if outcome is Ok {
                    Some(t)
                } else {
                    None
                },
            ),
        ),
        issued matches Err(e) ==> (r matches Some(Err(f)) && f@ == e@),
{
}

/// However a step of setting a plugin's account up ends, either the next one follows or the
/// password is next.
pub proof fn law_setup_leads_to_the_password(
    run: EnsureRun,
    outcome: Result<(), String>,
    next: EnsureRun,
    action: SignInAction,
)
    requires
        call_ensures(EnsureRun::provisioned, (run, outcome), next),
        call_ensures(EnsureRun::action, (&next,), action),
        run@ matches EnsureView::Provisioning(p) && p.error is None && 0 <= p.step < p.grants + 3,
    ensures
        ({
            let p = run@->Provisioning_0;
            let fine = outcome matches Err(e) ==> text::has_part(
                text::lowercase(e@),
                "already exists"@,
            ) || text::has_part(text::lowercase(e@), "alreadyexists"@);
            &&& next.of() == run.of()
            &&& fine && p.step + 1 < p.grants + 3 ==> (next@ matches EnsureView::Provisioning(q)
                && q.step == p.step + 1 && q.grants == p.grants) && action is Provision
            &&& !fine || p.step + 1 == p.grants + 3 ==> action is Authenticate
        }),
{
}

/// A plugin's sign-in begins with its own account, the setup of which grants each capability.
pub proof fn law_a_sign_in_is_of_the_plugin_s_account<G, C, H>(
    manager: PluginIdentityManager<G, C, H>,
    plugin: &str,
    capabilities: usize,
    run: EnsureRun,
)
    requires
        capabilities + 3 <= usize::MAX,
        call_ensures(PluginIdentityManager::<G, C, H>::ensure, (&manager, plugin, capabilities), run),
    ensures
        run.of().user@ == "plugin/"@ + plugin@,
        run.of().role@ == "plugin/"@ + plugin@ + "-role"@,
        run.of().key_id@ == "plugin-"@ + plugin@,
        run@ matches EnsureView::Provisioning(p) && p.grants == capabilities && p.step == 0
            && p.error is None,
{
}

/// One of the agent's accounts signs in: it is set up only where there is a bootstrap credential,
/// then a client is built, and then the password must bring a credential that is not empty. Each
/// failure says whose it is and what failed.
pub proof fn law_service_accounts_sign_in_with_their_password(
    run: ServiceSignIn,
    outcome: Result<(), String>,
    connected: ServiceSignIn,
    issued: Result<IssuedToken, String>,
    end: ServiceSignIn,
    r: Option<Result<IssuedToken, String>>,
)
    requires
        run@ is Connecting,
        call_ensures(ServiceSignIn::connected, (run, outcome), connected),
        call_ensures(ServiceSignIn::authenticated, (connected, issued), end),
        call_ensures(ServiceSignIn::into_outcome, (end,), r),
    ensures
        end.of() == run.of(),
        outcome matches Err(e) ==> (r matches Some(Err(f)) && f@ == run.called()
            + " client build failed: "@ + e@),
        outcome is Ok ==> {
            &&& connected@ is Authenticating
            &&& issued matches Err(e) ==> (r matches Some(Err(f)) && f@ == run.called()
                + " authenticate failed: "@ + e@)
            &&& issued matches Ok(t) ==> if t.cct@.len() > 0 {
                r == Some(Ok::<IssuedToken, String>(t))
            } else {
                r matches Some(Err(f)) && f@ == run.called() + " authenticate returned an empty CCT"@
            }
        },
{
}

/// One of the agent's accounts is set up exactly where there is a bootstrap credential.
pub proof fn law_setup_takes_a_bootstrap_credential(
    account: Account,
    label: &str,
    bootstrap: bool,
    grants: usize,
    run: ServiceSignIn,
    action: SignInAction,
)
    requires
        grants + 3 <= usize::MAX,
        call_ensures(
            ServiceSignIn::authenticate_service_account,
            (account, label, bootstrap, grants),
            run,
        ),
        call_ensures(ServiceSignIn::action, (&run,), action),
    ensures
        run.of() == account,
        run.called() == label@,
        bootstrap ==> action == SignInAction::Provision(ProvisionAction::AddUser)
            && run@->Provisioning_0.grants == grants,
        !bootstrap ==> action is Connect,
{
}

/// However a step of setting one of the agent's accounts up ends, either the next one follows or
/// its client is built next.
pub proof fn law_service_setup_leads_to_the_client(
    run: ServiceSignIn,
    outcome: Result<(), String>,
    next: ServiceSignIn,
    action: SignInAction,
)
    requires
        call_ensures(ServiceSignIn::provisioned, (run, outcome), next),
        call_ensures(ServiceSignIn::action, (&next,), action),
        run@ matches ServiceView::Provisioning(p) && p.error is None && 0 <= p.step < p.grants + 3,
    ensures
        ({
            let p = run@->Provisioning_0;
            let fine = outcome matches Err(e) ==> text::has_part(
                text::lowercase(e@),
                "already exists"@,
            ) || text::has_part(text::lowercase(e@), "alreadyexists"@);
            &&& next.of() == run.of()
            &&& next.called() == run.called()
            &&& fine && p.step + 1 < p.grants + 3 ==> action is Provision
            &&& !fine || p.step + 1 == p.grants + 3 ==> action is Connect
        }),
{
}

/// The accounts are provisioned through the provisioner's session, where there is one.
pub proof fn law_the_provisioner_provisions<G, C, H>(manager: PluginIdentityManager<G, C, H>, r: &G)
    requires
        call_ensures(PluginIdentityManager::<G, C, H>::active_gateway, (&manager,), r),
    ensures
        manager.provisioner() matches Some(g) ==> *r == g,
        manager.provisioner() is None ==> *r == manager.own(),
{
}

/// A plugin with an account calls with the client of that account, and any other one with the
/// shared client.
pub proof fn law_plugins_call_with_their_own_client<C>(clients: PluginClients<C>, plugin: Seq<char>)
    ensures
        clients.accounts().dom().contains(plugin) ==> identity::client_of(
            clients.accounts(),
            clients.shared(),
            plugin,
        ) == clients.accounts()[plugin],
        !clients.accounts().dom().contains(plugin) ==> identity::client_of(
            clients.accounts(),
            clients.shared(),
            plugin,
        ) == clients.shared(),
{
}

/// A plugin calls with the client of its account from the moment it signed in until it is forgotten;
/// other plugins are not affected.
pub proof fn law_identities_last_until_they_are_forgotten<G, C, H>(
    manager: &mut PluginIdentityManager<G, C, H>,
    plugin: &str,
    client: C,
    before: PluginIdentityManager<G, C, H>,
    after: PluginIdentityManager<G, C, H>,
    sources: (&PluginClients<C>, &PluginClients<C>, &PluginClients<C>),
    used: &C,
    forgetting: &mut PluginIdentityManager<G, C, H>,
    renewal: Option<H>,
    end: PluginIdentityManager<G, C, H>,
    then: &C,
    other: &str,
    shared: (&C, &C, &C),
)
    requires
        call_ensures(PluginIdentityManager::<G, C, H>::register_client, (manager, plugin, client), ()),
        before == *old(manager),
        after == *final(manager),
        call_ensures(PluginIdentityManager::<G, C, H>::client_source, (&before,), sources.0),
        call_ensures(PluginIdentityManager::<G, C, H>::client_source, (&after,), sources.1),
        call_ensures(PluginClients::<C>::client_for, (sources.1, plugin), used),
        *old(forgetting) == after,
        call_ensures(PluginIdentityManager::<G, C, H>::forget, (forgetting, plugin), renewal),
        end == *final(forgetting),
        call_ensures(PluginIdentityManager::<G, C, H>::client_source, (&end,), sources.2),
        call_ensures(PluginClients::<C>::client_for, (sources.2, plugin), then),
        call_ensures(PluginClients::<C>::client_for, (sources.0, other), shared.0),
        call_ensures(PluginClients::<C>::client_for, (sources.1, other), shared.1),
        call_ensures(PluginClients::<C>::client_for, (sources.2, other), shared.2),
    ensures
        *used == client,
        *then == before.known_clients().shared(),
        other@ != plugin@ ==> *shared.0 == *shared.1 && *shared.1 == *shared.2,
{
}

/// A renewal that is kept is handed out when a later one takes its place or the plugin is forgotten,
/// so that it ends; there is one for each plugin.
pub proof fn law_renewals_end_with_their_identity<G, C, H>(
    manager: &mut PluginIdentityManager<G, C, H>,
    plugin: &str,
    first: H,
    earlier: Option<H>,
    again: &mut PluginIdentityManager<G, C, H>,
    second: H,
    replaced: Option<H>,
    forgetting: &mut PluginIdentityManager<G, C, H>,
    ended: Option<H>,
    late: &mut PluginIdentityManager<G, C, H>,
    nothing: Option<H>,
)
    requires
        call_ensures(
            PluginIdentityManager::<G, C, H>::register_renewal,
            (manager, plugin, first),
            earlier,
        ),
        *old(again) == *final(manager),
        call_ensures(
            PluginIdentityManager::<G, C, H>::register_renewal,
            (again, plugin, second),
            replaced,
        ),
        *old(forgetting) == *final(again),
        call_ensures(PluginIdentityManager::<G, C, H>::forget, (forgetting, plugin), ended),
        *old(late) == *final(forgetting),
        call_ensures(PluginIdentityManager::<G, C, H>::forget, (late, plugin), nothing),
    ensures
        replaced == Some(first),
        ended == Some(second),
        nothing is None,
{
}

/// A provisioner's session provisions accounts from its adoption until it is forgotten, and the agent's
/// own gateway before and after; the renewal of a session that ends is handed out.
pub proof fn law_provisioners_act_until_they_are_forgotten<G, C, H>(
    manager: &mut PluginIdentityManager<G, C, H>,
    gateway: G,
    renewal: Option<H>,
    earlier: Option<H>,
    before: PluginIdentityManager<G, C, H>,
    own: &G,
    after: PluginIdentityManager<G, C, H>,
    acting: &G,
    active: bool,
    forgetting: &mut PluginIdentityManager<G, C, H>,
    ended: Option<H>,
    end: PluginIdentityManager<G, C, H>,
    then: &G,
    still: bool,
)
    requires
        call_ensures(
            PluginIdentityManager::<G, C, H>::adopt_provisioner,
            (manager, gateway, renewal),
            earlier,
        ),
        before == *old(manager),
        call_ensures(PluginIdentityManager::<G, C, H>::sign_in_gateway, (&before,), own),
        after == *final(manager),
        call_ensures(PluginIdentityManager::<G, C, H>::active_gateway, (&after,), acting),
        call_ensures(PluginIdentityManager::<G, C, H>::provisioner_active, (&after,), active),
        *old(forgetting) == after,
        call_ensures(PluginIdentityManager::<G, C, H>::forget_provisioner, (forgetting,), ended),
        end == *final(forgetting),
        call_ensures(PluginIdentityManager::<G, C, H>::active_gateway, (&end,), then),
        call_ensures(PluginIdentityManager::<G, C, H>::provisioner_active, (&end,), still),
    ensures
        *acting == gateway && active,
        ended == renewal,
        *then == *own && !still,
        earlier == before.session_renewal(),
{
}

/// The agent's own accounts sign in under the given name, which must not be blank, each with its own
/// role, key and kind.
pub proof fn law_the_agent_signs_in_by_name<G, C, H>(
    manager: PluginIdentityManager<G, C, H>,
    bootstrap: bool,
    user: &str,
    provisioner: Result<ServiceSignIn, String>,
    own: Result<ServiceSignIn, String>,
)
    requires
        call_ensures(
            PluginIdentityManager::<G, C, H>::bootstrap_provisioner,
            (&manager, bootstrap, user),
            provisioner,
        ),
        call_ensures(
            PluginIdentityManager::<G, C, H>::bootstrap_self_identity,
            (&manager, bootstrap, user),
            own,
        ),
    ensures
        provisioner is Ok <==> exists|i: int| 0 <= i < user@.len() && !text::is_white(#[trigger] user@[i]),
        own is Ok <==> provisioner is Ok,
        provisioner matches Ok(run) ==> run.of().user@ == user@ && run.of().role@ == user@ + "-role"@
            && run.of().key_id@ == "provisioner-"@ + user@ && run.called() == "provisioner"@,
        own matches Ok(run) ==> run.of().user@ == user@ && run.of().key_id@ == "self-"@ + user@
            && run.called() == "agent-self"@,
        provisioner matches Err(e) ==> e@ == "provisioner user name must not be empty"@,
        own matches Err(e) ==> e@ == "agent self user name must not be empty"@,
{
}

/// Granted capabilities are declared one by one, with their scopes.
pub proof fn law_grants_become_capabilities(grants: &[(String, String)], r: Vec<PluginCapability>, i: int)
    requires
        call_ensures(as_plugin_capabilities, (grants,), r),
    ensures
        r@.len() == grants@.len(),
        0 <= i < r@.len() ==> r@[i].id@ == grants@[i].0@ && r@[i].scope@ == grants@[i].1@,
{
}

/// A password spells its bytes, two hexadecimal digits for each.
pub proof fn law_passwords_spell_their_bytes(raw: &[u8], r: String, i: int)
    requires
        call_ensures(password_of, (raw,), r),
    ensures
        r@.len() == 2 * raw@.len(),
        0 <= i < raw@.len() ==> r@[2 * i] == "0123456789abcdef"@[raw@[i] as int / 16] && r@[2 * i + 1]
            == "0123456789abcdef"@[raw@[i] as int % 16],
{
    reveal_strlit("0123456789abcdef");
    if 0 <= i < raw@.len() {
        assert((2 * i) / 2 == i && (2 * i) % 2 == 0);
        assert((2 * i + 1) / 2 == i && (2 * i + 1) % 2 == 1);
    }
}

} // verus!
