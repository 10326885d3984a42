use coord_agent::plugin::engine::EngineKind;
use coord_agent::plugin::identity::{
    as_plugin_capabilities, ignore_exists, now_secs, password_of, plugin_account,
    provisioner_capability_grants, renewal_delay, reports_existing, self_account,
    self_capability_grants, stored_password, stored_secret, EnsureRetry, EnsureRetryPolicy,
    IssuedToken, PluginClientSource, PluginClients, PluginIdentityManager, ProvisionAction,
    ProvisionRun, RenewalPhase, RenewalRun, RetryStep, SharedPluginClients, MAX_PAUSE_NS,
};
use coord_agent::plugin::loading::identity_policy;
use coord_agent::plugin::manifest::PluginCapability;
use coord_agent::plugin::sign_in::{EnsureRun, SignInAction};
use std::cell::{Cell, RefCell};
use std::rc::Rc;

fn token(cct: &str) -> IssuedToken {
    IssuedToken { cct: cct.into(), refresh_token: Some("r".into()), expires_at: 1000 }
}

/// An authentication service: what it holds, and how it answers.
#[derive(Default)]
struct Gateway {
    users: RefCell<Vec<String>>,
    roles: RefCell<Vec<String>>,
    grants: RefCell<Vec<(String, String, String)>>,
    user_roles: RefCell<Vec<(String, String)>>,
    provisioning: Option<&'static str>,
    provision_calls: Cell<usize>,
    failures_left: Cell<usize>,
    auth_calls: Cell<usize>,
}

fn add(names: &RefCell<Vec<String>>, kind: &str, name: &str) -> Result<(), String> {
    let mut names = names.borrow_mut();
    if names.iter().any(|n| n == name) {
        return Err(format!("{kind} {name} already exists"));
    }
    names.push(name.to_string());
    Ok(())
}

impl Gateway {
    fn failing(failures: usize) -> Rc<Gateway> {
        Rc::new(Gateway { failures_left: Cell::new(failures), ..Gateway::default() })
    }

    fn provision(
        &self,
        step: ProvisionAction,
        user: &str,
        role: &str,
        caps: &[PluginCapability],
    ) -> Result<(), String> {
        self.provision_calls.set(self.provision_calls.get() + 1);
        if let Some(e) = self.provisioning {
            return Err(e.to_string());
        }
        match step {
            ProvisionAction::AddUser => add(&self.users, "user", user),
            ProvisionAction::AddRole => add(&self.roles, "role", role),
            ProvisionAction::Grant(i) => {
                let grant = (role.to_string(), caps[i].id.clone(), caps[i].scope.clone());
                self.grants.borrow_mut().push(grant);
                Ok(())
            }
            ProvisionAction::BindRole => {
                self.user_roles.borrow_mut().push((user.to_string(), role.to_string()));
                Ok(())
            }
            ProvisionAction::Done => unreachable!(),
        }
    }

    fn authenticate(&self) -> Result<IssuedToken, String> {
        self.auth_calls.set(self.auth_calls.get() + 1);
        if self.failures_left.get() > 0 {
            self.failures_left.set(self.failures_left.get() - 1);
            return Err("unavailable".into());
        }
        Ok(token("cct-1"))
    }
}

type Manager = PluginIdentityManager<Rc<Gateway>, &'static str, u32>;

fn manager_with(gateway: &Rc<Gateway>) -> Manager {
    PluginIdentityManager::new(Rc::clone(gateway), PluginClients::new("shared"))
}

fn manager() -> Manager {
    manager_with(&Rc::new(Gateway::default()))
}

fn cap(id: &str, scope: &str) -> PluginCapability {
    PluginCapability { id: id.into(), scope: scope.into() }
}

/// Signs a plugin's account in: the account is provisioned through the session that provisions,
/// and signed in through the one that signs in.
fn ensure(m: &mut Manager, plugin: &str, caps: &[PluginCapability]) -> Result<(), String> {
    let provisioning = Rc::clone(m.active_gateway());
    let sign_in = Rc::clone(m.sign_in_gateway());
    let mut run: EnsureRun = m.ensure(plugin, caps.len());
    loop {
        let user = run.account().user.clone();
        let role = run.account().role.clone();
        run = match run.action() {
            SignInAction::Provision(step) => {
                run.provisioned(provisioning.provision(step, &user, &role, caps))
            }
            SignInAction::Authenticate => run.authenticated(sign_in.authenticate()),
            SignInAction::Connect => {
                m.register_client(plugin, "own");
                run.connected(Ok(()))
            }
            SignInAction::Done => break,
        };
    }
    if run.into_outcome().unwrap()?.is_some() {
        m.register_renewal(plugin, 1);
    }
    Ok(())
}

fn ensure_with_retry(
    m: &mut Manager,
    caps: &[PluginCapability],
    policy: EnsureRetryPolicy,
) -> (Result<(), String>, Vec<u128>) {
    let mut pauses = Vec::new();
    let mut retry: EnsureRetry = m.ensure_with_retry(policy);
    loop {
        let (next, step) = retry.attempted(ensure(m, "counter", caps));
        retry = next;
        match step {
            RetryStep::Succeeded => return (Ok(()), pauses),
            RetryStep::Retry(ns) => pauses.push(ns),
            RetryStep::Failed(e) => return (Err(e), pauses),
        }
    }
}

#[test]
fn ensure_provisions_user_role_and_capability_grants() {
    let gateway = Rc::new(Gateway::default());
    let mut m = manager_with(&gateway);
    let caps = [cap("data:kv:read", "/app/counter/"), cap("data:kv:write", "/app/counter/")];
    ensure(&mut m, "counter", &caps).expect("ensure");
    assert_eq!(gateway.users.borrow().as_slice(), ["plugin/counter"]);
    assert_eq!(gateway.roles.borrow().as_slice(), ["plugin/counter-role"]);
    assert_eq!(
        gateway.user_roles.borrow().as_slice(),
        [("plugin/counter".to_string(), "plugin/counter-role".to_string())]
    );
    assert_eq!(
        gateway.grants.borrow().as_slice(),
        [
            ("plugin/counter-role".into(), "data:kv:read".into(), "/app/counter/".into()),
            ("plugin/counter-role".into(), "data:kv:write".into(), "/app/counter/".into()),
        ]
    );
    assert_eq!(gateway.auth_calls.get(), 1);
    assert_eq!(m.client_source().len(), 1);

    ensure(&mut m, "counter", &[cap("data:kv:read", "/app/counter/")]).expect("ensure idempotent");
    assert_eq!(gateway.users.borrow().len(), 1);
    assert_eq!(gateway.roles.borrow().len(), 1);

    m.forget("counter");
    assert_eq!(m.client_source().len(), 0);
}

#[test]
fn ensure_authenticates_existing_account_without_bootstrap_cct() {
    let gateway = Rc::new(Gateway {
        provisioning: Some("permission denied: missing CCT"),
        ..Gateway::default()
    });
    let mut m = manager_with(&gateway);
    ensure(&mut m, "counter", &[cap("data:kv:read", "/app/counter/")])
        .expect("existing plugin account must authenticate without a bootstrap CCT");
    assert_eq!(m.client_source().len(), 1, "authed client must be registered");
    assert_eq!(gateway.auth_calls.get(), 1);
    assert_eq!(gateway.provision_calls.get(), 1, "provisioning ends at its first failure");
}

#[test]
fn password_is_persisted_and_reused() {
    let (first, new) = stored_secret(None);
    assert!(new);
    assert_eq!(first.len(), 64);
    assert!(first.chars().all(|c| c.is_ascii_hexdigit()));
    let (second, new) = stored_secret(Some(first.clone().into_bytes()));
    assert!(!new);
    assert_eq!(first, second);
    let (other, _) = stored_secret(None);
    assert_ne!(first, other);
}

#[test]
fn unusable_secrets_are_replaced() {
    assert_eq!(stored_password(None), None);
    assert_eq!(stored_password(Some(vec![])), None);
    assert_eq!(stored_password(Some(vec![0xff])), None);
    assert_eq!(stored_password(Some(b"pw".to_vec())), Some("pw".to_string()));
    assert!(stored_secret(Some(vec![0xff])).1);
    assert_eq!(password_of(&[0xab, 0x01]), "ab01");
}

fn fast(attempts: u32) -> EnsureRetryPolicy {
    EnsureRetryPolicy { attempts, initial_backoff_ns: 0 }
}

#[test]
fn ensure_with_retry_does_not_retry_on_success() {
    let gateway = Gateway::failing(0);
    let mut m = manager_with(&gateway);
    let (out, pauses) =
        ensure_with_retry(&mut m, &[cap("data:kv:read", "/app/counter/")], fast(5));
    out.expect("ensure must succeed on the first attempt");
    assert!(pauses.is_empty());
    assert_eq!(gateway.auth_calls.get(), 1);
    assert_eq!(m.client_source().len(), 1);
}

#[test]
fn ensure_with_retry_absorbs_transient_authenticate_failures() {
    let gateway = Gateway::failing(2);
    let mut m = manager_with(&gateway);
    let (out, pauses) =
        ensure_with_retry(&mut m, &[cap("data:kv:read", "/app/counter/")], fast(5));
    out.expect("transient failures must be absorbed by the retry");
    assert_eq!(pauses, vec![0, 0]);
    assert_eq!(gateway.auth_calls.get(), 3, "2 failures + 1 success");
    assert_eq!(m.client_source().len(), 1);
}

#[test]
fn ensure_with_retry_is_bounded_on_persistent_failure() {
    let gateway = Gateway::failing(usize::MAX);
    let mut m = manager_with(&gateway);
    let (out, pauses) = ensure_with_retry(&mut m, &[], fast(3));
    let err = out.expect_err("persistent failure must surface after the bounded retries");
    assert_eq!(gateway.auth_calls.get(), 3, "exactly `attempts` authenticate calls");
    assert!(err.contains("failed after 3 attempt(s)"), "{err}");
    assert_eq!(err, "identity ensure failed after 3 attempt(s): unavailable");
    assert_eq!(pauses, vec![0, 0]);
    assert_eq!(m.client_source().len(), 0, "no authed client on failure");
}

#[test]
fn pauses_double() {
    let mut m = manager_with(&Gateway::failing(usize::MAX));
    let (_, pauses) = ensure_with_retry(&mut m, &[], EnsureRetryPolicy::default());
    assert_eq!(pauses, vec![200_000_000, 400_000_000, 800_000_000, 1_600_000_000]);
    let (_, pauses) = ensure_with_retry(&mut m, &[], fast(0));
    assert!(pauses.is_empty(), "at least one attempt");
    let short = EnsureRetryPolicy { attempts: 3, initial_backoff_ns: 1 };
    assert_eq!(ensure_with_retry(&mut m, &[], short).1, vec![1, 2]);
    let long = EnsureRetryPolicy { attempts: 4, initial_backoff_ns: MAX_PAUSE_NS / 2 + 1 };
    assert_eq!(
        ensure_with_retry(&mut m, &[], long).1,
        vec![MAX_PAUSE_NS / 2 + 1, MAX_PAUSE_NS, MAX_PAUSE_NS]
    );
    let longest = EnsureRetryPolicy { attempts: 2, initial_backoff_ns: u128::MAX };
    assert_eq!(ensure_with_retry(&mut m, &[], longest).1, vec![MAX_PAUSE_NS]);
    assert_eq!(MAX_PAUSE_NS, std::time::Duration::MAX.as_nanos());
}

#[test]
fn modules_are_tried_for_once() {
    assert_eq!(identity_policy(EngineKind::Wasm).attempts, 1);
    assert_eq!(identity_policy(EngineKind::Js), EnsureRetryPolicy::default());
    assert_eq!(identity_policy(EngineKind::Component), EnsureRetryPolicy::default());
}

#[test]
fn provisioning_failure_is_reported() {
    let mut run = ProvisionRun::new(1);
    assert_eq!(run.action(), ProvisionAction::AddUser);
    run = run.advance(Err("User Already Exists".into()));
    assert_eq!(run.action(), ProvisionAction::AddRole);
    run = run.advance(Err("cluster unavailable".into()));
    assert_eq!(run.action(), ProvisionAction::Done);
    assert!(run.is_over());
    assert_eq!(run.into_outcome(), Err("cluster unavailable".to_string()));
    let mut m = manager_with(&Gateway::failing(1));
    assert_eq!(ensure(&mut m, "p", &[]).unwrap_err(), "unavailable");
}

#[test]
fn clients_that_cannot_be_built_leave_no_identity() {
    let run = manager().ensure("p", 0);
    let run = run.provisioned(Err("denied".into())).authenticated(Ok(token("c")));
    assert_eq!(run.action(), SignInAction::Connect);
    let run = run.connected(Err("no route".into()));
    assert_eq!(run.into_outcome(), Some(Ok(None)));
    assert_eq!(manager().ensure("p", 0).into_outcome(), None);
}

#[test]
fn existing_things_are_no_failure() {
    assert!(reports_existing("user already exists"));
    assert!(reports_existing("alreadyexists: u"));
    assert!(!reports_existing("not found"));
    assert!(ignore_exists("AlreadyExists".into()).is_ok());
    assert_eq!(ignore_exists("Denied".into()), Err("Denied".to_string()));
}

#[test]
fn gateway_refresh_failure_falls_back_to_password() {
    let run = RenewalRun::new(token("old"));
    assert_eq!(run.phase(), RenewalPhase::Resting);
    let run = run.due();
    assert_eq!(run.phase(), RenewalPhase::Refreshing);
    assert_eq!(run.refresh_token().map(|s| s.as_str()), Some("r"));
    let run = run.answered(Err("refresh rejected".into()));
    assert_eq!(run.phase(), RenewalPhase::Authenticating);
    let run = run.answered(Ok(token("new")));
    assert_eq!(run.phase(), RenewalPhase::Resting);
    assert_eq!(run.credential().map(|s| s.as_str()), Some("new"));
    let run = run.due().answered(Err("x".into())).answered(Err("y".into()));
    assert_eq!(run.phase(), RenewalPhase::BackingOff);
    assert!(run.credential().is_none());
    let run = run.backed_off(5000);
    assert_eq!(run.phase(), RenewalPhase::Resting);
    assert_eq!(run.expires_at(), 5060);
}

#[test]
fn credentials_without_refresh_token_use_the_password() {
    let run = RenewalRun::new(IssuedToken { refresh_token: None, ..token("c") });
    assert_eq!(run.due().phase(), RenewalPhase::Authenticating);
}

#[test]
fn renewals_come_before_expiry() {
    assert_eq!(renewal_delay(0, 500), 600);
    assert_eq!(renewal_delay(1000, 500), 380);
    assert_eq!(renewal_delay(1000, 999), 30);
    assert_eq!(renewal_delay(1000, 5000), 30);
    assert_eq!(now_secs(None), 0);
    assert_eq!(now_secs(Some(17)), 17);
    assert_eq!(now_secs(Some(u64::MAX)), 0);
}

#[test]
fn shared_client_source_always_returns_fallback() {
    let shared = SharedPluginClients::new("shared");
    assert_eq!(*shared.client_for("a"), "shared");
    assert_eq!(*shared.client_for("b"), "shared");
    let mut clients = PluginClients::new("shared");
    assert!(clients.is_empty());
    clients.insert("a", "own");
    assert_eq!(*clients.client_for("a"), "own");
    assert_eq!(*clients.client_for("b"), "shared");
    assert_eq!(clients.len(), 1);
    clients.remove("a");
    assert_eq!(*clients.client_for("a"), "shared");
}

#[test]
fn provisioner_session_takes_over_account_provisioning() {
    let bootstrap = Rc::new(Gateway::default());
    let mut m = manager_with(&bootstrap);
    assert!(!m.provisioner_active());
    ensure(&mut m, "alpha", &[cap("data:kv:read", "/app/alpha/")]).expect("ensure alpha");
    assert_eq!(bootstrap.users.borrow().as_slice(), ["plugin/alpha"]);

    let provisioner = Rc::new(Gateway::default());
    assert_eq!(m.adopt_provisioner(Rc::clone(&provisioner), None), None);
    assert!(m.provisioner_active());
    ensure(&mut m, "beta", &[cap("data:kv:write", "/app/beta/")]).expect("ensure beta");
    assert_eq!(provisioner.users.borrow().as_slice(), ["plugin/beta"]);
    assert_eq!(provisioner.roles.borrow().as_slice(), ["plugin/beta-role"]);
    assert_eq!(
        bootstrap.users.borrow().as_slice(),
        ["plugin/alpha"],
        "bootstrap gateway must not be used once a provisioner session exists"
    );
    assert_eq!(bootstrap.auth_calls.get(), 2);
    assert_eq!(provisioner.auth_calls.get(), 0);
    assert_eq!(m.client_source().len(), 2);

    m.forget_provisioner();
    assert!(!m.provisioner_active());
    ensure(&mut m, "gamma", &[]).expect("ensure gamma");
    assert!(bootstrap.users.borrow().iter().any(|u| u == "plugin/gamma"));
    assert!(
        !provisioner.users.borrow().iter().any(|u| u == "plugin/gamma"),
        "after release the bootstrap gateway must be used again"
    );
}

#[test]
fn provisioner_sessions_replace_one_another() {
    let mut m = manager();
    assert_eq!(m.adopt_provisioner(Gateway::failing(1), Some(1)), None);
    assert_eq!(m.adopt_provisioner(Gateway::failing(2), Some(2)), Some(1));
    assert_eq!(m.active_gateway().failures_left.get(), 2);
    assert_eq!(m.sign_in_gateway().failures_left.get(), 0);
    assert_eq!(m.forget_provisioner(), Some(2));
    assert_eq!(m.active_gateway().failures_left.get(), 0);
}

#[test]
fn identities_last_until_forgotten() {
    let mut m = manager();
    m.register_client("p", "own");
    assert_eq!(m.register_renewal("p", 7), None);
    assert_eq!(m.register_renewal("p", 8), Some(7));
    assert_eq!(*m.client_source().client_for("p"), "own");
    assert_eq!(m.forget("p"), Some(8));
    assert_eq!(m.forget("p"), None);
    assert_eq!(*m.client_source().client_for("p"), "shared");
}

#[test]
fn bootstrap_provisioner_rejects_empty_user() {
    let m = manager();
    let err = m.bootstrap_provisioner(false, "  ").err().unwrap();
    assert_eq!(err, "provisioner user name must not be empty");
    assert!(!m.provisioner_active());
    let err = m.bootstrap_self_identity(false, "").err().unwrap();
    assert_eq!(err, "agent self user name must not be empty");
}

#[test]
fn service_accounts_sign_in() {
    let m = manager();
    let run = m.bootstrap_provisioner(false, "prov").ok().unwrap();
    assert_eq!(run.account().role, "prov-role");
    assert_eq!(run.account().key_id, "provisioner-prov");
    assert_eq!(run.action(), SignInAction::Connect);
    let run = run.connected(Ok(()));
    assert_eq!(run.action(), SignInAction::Authenticate);
    assert_eq!(
        run.authenticated(Ok(token("c"))).into_outcome().unwrap().unwrap().cct,
        "c"
    );

    let failed = |step: u8| {
        let run = m.bootstrap_provisioner(false, "prov").ok().unwrap();
        let run = match step {
            0 => run.connected(Err("no route".into())),
            1 => run.connected(Ok(())).authenticated(Err("denied".into())),
            _ => run.connected(Ok(())).authenticated(Ok(token(""))),
        };
        run.into_outcome().unwrap().unwrap_err()
    };
    assert_eq!(failed(0), "provisioner client build failed: no route");
    assert_eq!(failed(1), "provisioner authenticate failed: denied");
    assert_eq!(failed(2), "provisioner authenticate returned an empty CCT");

    let mut run = m.bootstrap_self_identity(true, "agent-self").ok().unwrap();
    assert_eq!(run.account().role, "agent-self-role");
    let mut steps = 0;
    while let SignInAction::Provision(_) = run.action() {
        run = run.provisioned(Ok(()));
        steps += 1;
    }
    assert_eq!(steps, self_capability_grants().len() + 3);
    assert_eq!(run.action(), SignInAction::Connect);
}

#[test]
fn accounts_are_named_after_their_plugin() {
    let a = plugin_account("counter");
    assert_eq!(a.user, "plugin/counter");
    assert_eq!(a.role, "plugin/counter-role");
    assert_eq!(a.key_id, "plugin-counter");
    assert_eq!(self_account("me").ok().unwrap().key_id, "self-me");
}

#[test]
fn grants_of_the_agent_are_separate() {
    let own = self_capability_grants();
    assert_eq!(own.len(), 51);
    assert_eq!(own[0], ("data:kv:read".to_string(), "/_lock/*".to_string()));
    assert_eq!(own[50], ("data:watch:subscribe".to_string(), String::new()));
    assert!(own.iter().all(|g| g.0.starts_with("data:")));
    let provisioner = provisioner_capability_grants();
    assert_eq!(provisioner.len(), 5);
    assert!(provisioner.iter().all(|g| g.0.starts_with("admin:auth:")));
    let caps = as_plugin_capabilities(&provisioner);
    assert_eq!(caps[1].id, provisioner[1].0);
}
