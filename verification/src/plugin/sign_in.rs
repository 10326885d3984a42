//! How accounts sign in: provisioning where it can be done, the password in any case.
use crate::plugin::identity;
use crate::plugin::identity::{
    plugin_account, provisioner_account, self_account, Account, EnsureRetry, EnsureRetryPolicy,
    IssuedToken, PluginIdentityManager, ProvisionAction, ProvisionRun, ProvisionView,
};
use crate::plugin::reload;
use crate::text;
use crate::text::join3;
use vstd::prelude::*;

verus! {

/// What is to be done next for a sign-in.
#[derive(Debug, Clone, Copy, PartialEq, Eq, Structural)]
pub enum SignInAction {
    /// A step of provisioning.
    Provision(ProvisionAction),
    /// Sign in with the password.
    Authenticate,
    /// Build the client of the account.
    Connect,
    /// Nothing.
    Done,
}

#[derive(Debug)]
enum EnsureStage {
    Provisioning(ProvisionRun),
    Authenticating,
    Connecting(IssuedToken),
    Ended(Result<Option<IssuedToken>, String>),
}

/// Where the sign-in of a plugin's account stands.
pub enum EnsureView {
    Provisioning(ProvisionView),
    Authenticating,
    Connecting(IssuedToken),
    /// The account is signed in and its client is built.
    Ready(IssuedToken),
    /// The account is signed in, and its client could not be built.
    Unconnected,
    /// The account could not sign in.
    Refused(Seq<char>),
}

/// A sign-in with a number of capabilities to grant.
pub open spec fn ensure_start(grants: int) -> EnsureView {
    EnsureView::Provisioning(ProvisionView { grants, step: 0, error: None })
}

/// The sign-in after a step of provisioning: however provisioning ends, the password is next.
pub open spec fn ensure_provision(v: EnsureView, error: Option<Seq<char>>) -> EnsureView {
    match v {
        EnsureView::Provisioning(run) => {
            let next = identity::provision_next(run, error);
            if identity::provisioned(next) {
                EnsureView::Authenticating
            } else {
                EnsureView::Provisioning(next)
            }
        },
        _ => v,
    }
}

/// The sign-in after the answer to the password.
pub open spec fn ensure_authenticate(v: EnsureView, issued: Result<IssuedToken, String>) -> EnsureView {
    match (v, issued) {
        (EnsureView::Authenticating, Ok(t)) => EnsureView::Connecting(t),
        (EnsureView::Authenticating, Err(e)) => EnsureView::Refused(e@),
        _ => v,
    }
}

/// The sign-in after the client was built, or could not be.
pub open spec fn ensure_connect(v: EnsureView, error: Option<Seq<char>>) -> EnsureView {
    match (v, error) {
        (EnsureView::Connecting(t), None) => EnsureView::Ready(t),
        (EnsureView::Connecting(_), Some(_)) => EnsureView::Unconnected,
        _ => v,
    }
}

/// The sign-in of a plugin's account: provisioning first, as far as it goes, then the password,
/// then the client.
#[derive(Debug)]
pub struct EnsureRun {
    account: Account,
    stage: EnsureStage,
}

impl View for EnsureRun {
    type V = EnsureView;

    closed spec fn view(&self) -> EnsureView {
        match self.stage {
            EnsureStage::Provisioning(run) => EnsureView::Provisioning(run@),
            EnsureStage::Authenticating => EnsureView::Authenticating,
            EnsureStage::Connecting(t) => EnsureView::Connecting(t),
            EnsureStage::Ended(Ok(Some(t))) => EnsureView::Ready(t),
            EnsureStage::Ended(Ok(None)) => EnsureView::Unconnected,
            EnsureStage::Ended(Err(e)) => EnsureView::Refused(e@),
        }
    }
}

impl EnsureRun {
    /// The account that signs in.
    pub closed spec fn of(&self) -> Account {
        self.account
    }

    /// The account that signs in.
    pub fn account(&self) -> (r: &Account)
        ensures
            *r == self.of(),
    {
        &self.account
    }

    /// What is to be done next.
    pub fn action(&self) -> (r: SignInAction)
        ensures
            match self@ {
                EnsureView::Provisioning(run) => r == SignInAction::Provision(
                    identity::provision_action(run),
                ),
                EnsureView::Authenticating => r is Authenticate,
                EnsureView::Connecting(_) => r is Connect,
                _ => r is Done,
            },
    {
        match &self.stage {
            EnsureStage::Provisioning(run) => SignInAction::Provision(run.action()),
            EnsureStage::Authenticating => SignInAction::Authenticate,
            EnsureStage::Connecting(_) => SignInAction::Connect,
            EnsureStage::Ended(_) => SignInAction::Done,
        }
    }

    /// The sign-in after a step of provisioning.
    pub fn provisioned(self, outcome: Result<(), String>) -> (r: Self)
        ensures
            r.of() == self.of(),
            r@ == ensure_provision(self@, reload::outcome_error(outcome)),
    {
        let EnsureRun { account, stage } = self;
        let stage = match stage {
            EnsureStage::Provisioning(run) => {
                let next = run.advance(outcome);
                if next.is_over() {
                    EnsureStage::Authenticating
                } else {
                    EnsureStage::Provisioning(next)
                }
            },
            other => other,
        };
        EnsureRun { account, stage }
    }

    /// The sign-in after the answer to the password.
    pub fn authenticated(self, issued: Result<IssuedToken, String>) -> (r: Self)
        ensures
            r.of() == self.of(),
            r@ == ensure_authenticate(self@, issued),
    {
        let EnsureRun { account, stage } = self;
        let stage = match stage {
            EnsureStage::Authenticating => match issued {
                Ok(t) => EnsureStage::Connecting(t),
                Err(e) => EnsureStage::Ended(Err(e)),
            },
            other => other,
        };
        EnsureRun { account, stage }
    }

    /// The sign-in after the client was built, or could not be.
    pub fn connected(self, outcome: Result<(), String>) -> (r: Self)
        ensures
            r.of() == self.of(),
            r@ == ensure_connect(self@, reload::outcome_error(outcome)),
    {
        let EnsureRun { account, stage } = self;
        let stage = match stage {
            EnsureStage::Connecting(t) => match outcome {
                Ok(_) => EnsureStage::Ended(Ok(Some(t))),
                Err(_) => EnsureStage::Ended(Ok(None)),
            },
            other => other,
        };
        EnsureRun { account, stage }
    }

    /// What the sign-in came to: the credential to renew where the client was built, or why the
    /// account could not sign in. None where the sign-in is not over.
    pub fn into_outcome(self) -> (r: Option<Result<Option<IssuedToken>, String>>)
        ensures
            match self@ {
                EnsureView::Ready(t) => r == Some(Ok::<Option<IssuedToken>, String>(Some(t))),
                EnsureView::Unconnected => r == Some(Ok::<Option<IssuedToken>, String>(None)),
                EnsureView::Refused(e) => r matches Some(Err(f)) && f@ == e,
                _ => r is None,
            },
    {
        match self.stage {
            EnsureStage::Ended(outcome) => Some(outcome),
            _ => None,
        }
    }
}

// ---- the agent's own accounts ----

#[derive(Debug)]
enum ServiceStage {
    Provisioning(ProvisionRun),
    Connecting,
    Authenticating,
    Ended(Result<IssuedToken, String>),
}

/// Where the sign-in of a service account stands.
pub enum ServiceView {
    Provisioning(ProvisionView),
    Connecting,
    Authenticating,
    Ready(IssuedToken),
    Refused(Seq<char>),
}

/// The sign-in of a service account: provisioning only where there is a bootstrap credential.
pub open spec fn service_start(bootstrap: bool, grants: int) -> ServiceView {
    if bootstrap {
        ServiceView::Provisioning(ProvisionView { grants, step: 0, error: None })
    } else {
        ServiceView::Connecting
    }
}

/// The sign-in after a step of provisioning: however provisioning ends, the connection is next.
pub open spec fn service_provision(v: ServiceView, error: Option<Seq<char>>) -> ServiceView {
    match v {
        ServiceView::Provisioning(run) => {
            let next = identity::provision_next(run, error);
            if identity::provisioned(next) {
                ServiceView::Connecting
            } else {
                ServiceView::Provisioning(next)
            }
        },
        _ => v,
    }
}

/// The sign-in after the connection was made, or could not be.
pub open spec fn service_connect(label: Seq<char>, v: ServiceView, error: Option<Seq<char>>) -> ServiceView {
    match (v, error) {
        (ServiceView::Connecting, None) => ServiceView::Authenticating,
        (ServiceView::Connecting, Some(e)) => ServiceView::Refused(
            label + " client build failed: "@ + e,
        ),
        _ => v,
    }
}

/// The sign-in after the answer to the password, which must hold a credential.
pub open spec fn service_authenticate(
    label: Seq<char>,
    v: ServiceView,
    issued: Result<IssuedToken, String>,
) -> ServiceView {
    match (v, issued) {
        (ServiceView::Authenticating, Err(e)) => ServiceView::Refused(
            label + " authenticate failed: "@ + e@,
        ),
        (ServiceView::Authenticating, Ok(t)) => if t.cct@.len() == 0 {
            ServiceView::Refused(label + " authenticate returned an empty CCT"@)
        } else {
            ServiceView::Ready(t)
        },
        _ => v,
    }
}

/// The sign-in of one of the agent's own accounts.
#[derive(Debug)]
pub struct ServiceSignIn {
    account: Account,
    label: String,
    stage: ServiceStage,
}

impl View for ServiceSignIn {
    type V = ServiceView;

    closed spec fn view(&self) -> ServiceView {
        match self.stage {
            ServiceStage::Provisioning(run) => ServiceView::Provisioning(run@),
            ServiceStage::Connecting => ServiceView::Connecting,
            ServiceStage::Authenticating => ServiceView::Authenticating,
            ServiceStage::Ended(Ok(t)) => ServiceView::Ready(t),
            ServiceStage::Ended(Err(e)) => ServiceView::Refused(e@),
        }
    }
}

impl ServiceSignIn {
    /// The account that signs in.
    pub closed spec fn of(&self) -> Account {
        self.account
    }

    /// What failures call the account.
    pub closed spec fn called(&self) -> Seq<char> {
        self.label@
    }

    /// A sign-in, with a number of capabilities to grant where there is a bootstrap credential.
    pub fn authenticate_service_account(account: Account, label: &str, bootstrap: bool, grants: usize) -> (r:
        Self)
        requires
            grants + 3 <= usize::MAX,
        ensures
            r.of() == account,
            r.called() == label@,
            r@ == service_start(bootstrap, grants as int),
    {
        let stage = if bootstrap {
            ServiceStage::Provisioning(ProvisionRun::new(grants))
        } else {
            ServiceStage::Connecting
        };
        ServiceSignIn { account, label: label.to_owned(), stage }
    }

    /// The account that signs in.
    pub fn account(&self) -> (r: &Account)
        ensures
            *r == self.of(),
    {
        &self.account
    }

    /// What is to be done next.
    pub fn action(&self) -> (r: SignInAction)
        ensures
            match self@ {
                ServiceView::Provisioning(run) => r == SignInAction::Provision(
                    identity::provision_action(run),
                ),
                ServiceView::Connecting => r is Connect,
                ServiceView::Authenticating => r is Authenticate,
                _ => r is Done,
            },
    {
        match &self.stage {
            ServiceStage::Provisioning(run) => SignInAction::Provision(run.action()),
            ServiceStage::Connecting => SignInAction::Connect,
            ServiceStage::Authenticating => SignInAction::Authenticate,
            ServiceStage::Ended(_) => SignInAction::Done,
        }
    }

    /// The sign-in after a step of provisioning.
    pub fn provisioned(self, outcome: Result<(), String>) -> (r: Self)
        ensures
            r.of() == self.of(),
            r.called() == self.called(),
            r@ == service_provision(self@, reload::outcome_error(outcome)),
    {
        let ServiceSignIn { account, label, stage } = self;
        let stage = match stage {
            ServiceStage::Provisioning(run) => {
                let next = run.advance(outcome);
                if next.is_over() {
                    ServiceStage::Connecting
                } else {
                    ServiceStage::Provisioning(next)
                }
            },
            other => other,
        };
        ServiceSignIn { account, label, stage }
    }

    /// The sign-in after the connection was made, or could not be.
    pub fn connected(self, outcome: Result<(), String>) -> (r: Self)
        ensures
            r.of() == self.of(),
            r.called() == self.called(),
            r@ == service_connect(self.called(), self@, reload::outcome_error(outcome)),
    {
        let ServiceSignIn { account, label, stage } = self;
        let stage = match stage {
            ServiceStage::Connecting => match outcome {
                Ok(_) => ServiceStage::Authenticating,
                Err(e) => ServiceStage::Ended(
                    Err(join3(label.as_str(), " client build failed: ", e.as_str())),
                ),
            },
            other => other,
        };
        ServiceSignIn { account, label, stage }
    }

    /// The sign-in after the answer to the password.
    pub fn authenticated(self, issued: Result<IssuedToken, String>) -> (r: Self)
        ensures
            r.of() == self.of(),
            r.called() == self.called(),
            r@ == service_authenticate(self.called(), self@, issued),
    {
        let ServiceSignIn { account, label, stage } = self;
        let stage = match stage {
            ServiceStage::Authenticating => ServiceStage::Ended(
                match issued {
                    Err(e) => Err(join3(label.as_str(), " authenticate failed: ", e.as_str())),
                    Ok(t) => {
                        if t.cct.as_str().unicode_len() == 0 {
                            let mut text = label.clone();
                            text.append(" authenticate returned an empty CCT");
                            Err(text)
                        } else {
                            Ok(t)
                        }
                    },
                },
            ),
            other => other,
        };
        ServiceSignIn { account, label, stage }
    }

    /// What the sign-in came to; none where it is not over.
    pub fn into_outcome(self) -> (r: Option<Result<IssuedToken, String>>)
        ensures
            match self@ {
                ServiceView::Ready(t) => r == Some(Ok::<IssuedToken, String>(t)),
                ServiceView::Refused(e) => r matches Some(Err(f)) && f@ == e,
                _ => r is None,
            },
    {
        match self.stage {
            ServiceStage::Ended(outcome) => Some(outcome),
            _ => None,
        }
    }
}

impl<G, C, H> PluginIdentityManager<G, C, H> {
    /// Begins the sign-in of a plugin's account, with a number of capabilities to grant.
    pub fn ensure(&self, plugin: &str, capabilities: usize) -> (r: EnsureRun)
        requires
            capabilities + 3 <= usize::MAX,
        ensures
            r.of().user@ == "plugin/"@ + plugin@,
            r.of().role@ == "plugin/"@ + plugin@ + "-role"@,
            r.of().key_id@ == "plugin-"@ + plugin@,
            r@ == ensure_start(capabilities as int),
    {
        EnsureRun {
            account: plugin_account(plugin),
            stage: EnsureStage::Provisioning(ProvisionRun::new(capabilities)),
        }
    }

    /// Begins the attempts at the sign-in of a plugin's account; each attempt is a sign-in of its
    /// own.
    pub fn ensure_with_retry(&self, policy: EnsureRetryPolicy) -> (r: EnsureRetry)
        ensures
            r@ == identity::first_attempt(policy),
    {
        EnsureRetry::new(policy)
    }

    /// Begins the sign-in of the account that provisions plugin accounts.
    pub fn bootstrap_provisioner(&self, bootstrap: bool, user: &str) -> (r: Result<
        ServiceSignIn,
        String,
    >)
        ensures
            match r {
                Ok(run) => !text::blank(user@) && run.of().user@ == user@ && run.of().role@ == user@
                    + "-role"@ && run.of().key_id@ == "provisioner-"@ + user@ && run.called()
                    == "provisioner"@ && run@ == service_start(
                    bootstrap,
                    identity::provisioner_grants().len() as int,
                ),
                Err(e) => text::blank(user@) && e@ == "provisioner user name must not be empty"@,
            },
    {
        let account = provisioner_account(user)?;
        Ok(ServiceSignIn::authenticate_service_account(account, "provisioner", bootstrap, 5))
    }

    /// Begins the sign-in of the agent's own account.
    pub fn bootstrap_self_identity(&self, bootstrap: bool, user: &str) -> (r: Result<
        ServiceSignIn,
        String,
    >)
        ensures
            match r {
                Ok(run) => !text::blank(user@) && run.of().user@ == user@ && run.of().role@
                    == identity::SELF_ROLE@ && run.of().key_id@ == "self-"@ + user@ && run.called()
                    == "agent-self"@ && run@ == service_start(
                    bootstrap,
                    identity::self_grants().len() as int,
                ),
                Err(e) => text::blank(user@) && e@ == "agent self user name must not be empty"@,
            },
    {
        let account = self_account(user)?;
        Ok(
            ServiceSignIn::authenticate_service_account(
                account,
                "agent-self",
                bootstrap,
                51,
            ),
        )
    }
}

/// The sign-in of a plugin's account when provisioning is over, given how each step turns out.
pub open spec fn ensure_after_provisioning(v: EnsureView, o: spec_fn(int) -> Option<Seq<char>>) -> EnsureView
    decreases
            match v {
                EnsureView::Provisioning(run) => run.grants + 3 - run.step + 1,
                _ => 0,
            },
{
    match v {
        EnsureView::Provisioning(run) => {
            let next = ensure_provision(v, o(run.step));
            if identity::provisioned(run) {
                EnsureView::Authenticating
            } else {
                ensure_after_provisioning(next, o)
            }
        },
        _ => v,
    }
}

/// Whether a plugin's account signs in does not depend on whether it could be provisioned: after
/// a restart a stored account needs no bootstrap credential.
pub proof fn law_sign_in_needs_no_provisioning(
    run: ProvisionView,
    o: spec_fn(int) -> Option<Seq<char>>,
    issued: Result<IssuedToken, String>,
    connect_error: Option<Seq<char>>,
)
    requires
        0 <= run.step <= run.grants + 3,
    ensures
        ({
            let end = ensure_connect(
                ensure_authenticate(
                    ensure_after_provisioning(EnsureView::Provisioning(run), o),
                    issued,
                ),
                connect_error,
            );
            match (issued, connect_error) {
                (Ok(t), None) => end == EnsureView::Ready(t),
                (Ok(_), Some(_)) => end is Unconnected,
                (Err(e), _) => end == EnsureView::Refused(e@),
            }
        }),
    decreases run.grants + 3 - run.step,
{
    let v = EnsureView::Provisioning(run);
    if !identity::provisioned(run) {
        let next = ensure_provision(v, o(run.step));
        if let EnsureView::Provisioning(later) = next {
            law_sign_in_needs_no_provisioning(later, o, issued, connect_error);
        } else {
            assert(ensure_after_provisioning(next, o) == next);
        }
    }
}

/// A service account is never taken as signed in without a credential.
pub proof fn law_signed_in_accounts_hold_a_credential(
    label: Seq<char>,
    v: ServiceView,
    issued: Result<IssuedToken, String>,
)
    requires
        v is Authenticating,
    ensures
        service_authenticate(label, v, issued) matches ServiceView::Ready(t) ==> t.cct@.len() > 0
            && issued == Ok::<IssuedToken, String>(t),
{
}

} // verus!
