use coord_agent::plugin::manifest::PluginCapability;
use coord_agent::plugin::sdk::backend::{
    key_resource, PluginScope, SdkError, SdkErrorCode, SdkResult, WatchEventKind, CAP_KV_READ,
    CAP_KV_WRITE, CAP_STORAGE_READ,
};

fn cap(id: &str, scope: &str) -> PluginCapability {
    PluginCapability {
        id: id.into(),
        scope: scope.into(),
    }
}

/// A plugin's declared capabilities with a matcher of their scopes: by path segments, with a star
/// at the end, and never where a scope has a character that none may have.
struct Declared {
    scope: PluginScope,
    scopes: Vec<String>,
}

fn segments(path: &str) -> Vec<&str> {
    path.split('/').filter(|s| !s.is_empty()).collect()
}

fn covers(scope: &str, resource: &str) -> bool {
    let well_formed =
        scope.chars().all(|c| c.is_ascii_alphanumeric() || matches!(c, '/' | '*' | '-' | '_' | '.'));
    let wanted = segments(scope);
    let wanted = wanted.strip_suffix(&["*"]).unwrap_or(&wanted);
    well_formed && !scope.is_empty() && segments(resource).starts_with(wanted)
}

impl Declared {
    fn new(plugin: &str, caps: &[PluginCapability]) -> Self {
        Declared {
            scope: PluginScope::new(plugin, caps),
            scopes: caps.iter().map(|c| c.scope.clone()).collect(),
        }
    }

    fn check(&self, capability: &str, resource: &str) -> SdkResult<()> {
        let matched: Vec<bool> = self.scopes.iter().map(|s| covers(s, resource)).collect();
        self.scope.check(capability, resource, &matched)
    }
}

#[test]
fn scope_allows_declared_prefix() {
    let scope = Declared::new("p", &[cap(CAP_KV_WRITE, "/app/counter/")]);
    assert!(scope.check(CAP_KV_WRITE, "/app/counter/a").is_ok());
    assert!(scope.check(CAP_KV_WRITE, "/app/counter/").is_ok());
}

#[test]
fn scope_rejects_out_of_range_and_missing_capability() {
    let scope = Declared::new("p", &[cap(CAP_KV_WRITE, "/app/counter/")]);
    let err = scope.check(CAP_KV_WRITE, "/app/other/a").unwrap_err();
    assert_eq!(err.code, SdkErrorCode::Forbidden);
    let err = scope.check(CAP_KV_READ, "/app/counter/a").unwrap_err();
    assert_eq!(err.code, SdkErrorCode::Forbidden);
    assert!(err.message.contains("does not declare"));
}

#[test]
fn empty_scope_is_unrestricted_for_that_capability() {
    let scope = Declared::new("p", &[cap(CAP_KV_READ, "")]);
    assert!(!covers("", "/anything/at/all"), "the matcher says nothing of an empty scope");
    assert!(scope.check(CAP_KV_READ, "/anything/at/all").is_ok());
    assert!(scope.check(CAP_KV_WRITE, "/anything/at/all").is_err());
}

#[test]
fn wildcard_scope_matches_subtree_only() {
    let scope = Declared::new("p", &[cap(CAP_KV_READ, "/app/*")]);
    assert!(scope.check(CAP_KV_READ, "/app/x/y").is_ok());
    assert!(scope.check(CAP_KV_READ, "/other/x").is_err());
}

#[test]
fn invalid_scope_fails_closed() {
    let scope = Declared::new("p", &[cap(CAP_STORAGE_READ, "bucket=inbox")]);
    assert!(scope.check(CAP_STORAGE_READ, "/bucket/inbox/o1").is_err());
}

#[test]
fn verdicts_decide_on_restricted_scopes_only() {
    let caps = [cap(CAP_KV_READ, "/a/"), cap(CAP_KV_WRITE, "")];
    let scope = PluginScope::new("p", &caps);
    assert!(scope.check(CAP_KV_READ, "/x", &[true, false]).is_ok());
    assert!(scope.check(CAP_KV_READ, "/a/x", &[false, true]).is_err());
    for matched in [&[false, false][..], &[true, true][..], &[][..]] {
        assert!(scope.check(CAP_KV_WRITE, "/x", matched).is_ok());
    }
}

#[test]
fn non_utf8_key_is_rejected() {
    let err = key_resource(&[0xff, 0xfe]).unwrap_err();
    assert_eq!(err.code, SdkErrorCode::Forbidden);
    assert_eq!(key_resource(b"/k").unwrap(), "/k");
}

#[test]
fn error_display_carries_exception_name() {
    let e = SdkError::not_found("key gone");
    assert_eq!(e.to_text(), "ErrNotFound: key gone");
    assert_eq!(SdkErrorCode::Unavailable.exception_name(), "ErrUnavailable");
}

#[test]
fn refusals_name_plugin_capability_and_resource() {
    let scope = PluginScope::new("p", &[cap(CAP_KV_WRITE, "/a/")]);
    assert_eq!(
        scope.check(CAP_KV_WRITE, "/b", &[false]).unwrap_err().message,
        "plugin 'p' resource '/b' is outside the declared scope of capability 'data:kv:write'"
    );
    assert_eq!(
        scope.check(CAP_KV_READ, "/b", &[true]).unwrap_err().message,
        "plugin 'p' does not declare capability 'data:kv:read'"
    );
    assert!(PluginScope::empty("p").check(CAP_KV_READ, "/b", &[]).is_err());
}

#[test]
fn star_answers_for_every_capability() {
    let scope = PluginScope::new("p", &[cap("*", "/a/")]);
    assert!(scope.check(CAP_KV_READ, "/a/x", &[true]).is_ok());
    assert!(scope.check(CAP_STORAGE_READ, "/a/x", &[true]).is_ok());
    assert!(scope.check(CAP_KV_READ, "/b", &[false]).is_err());
    assert_eq!(scope.len(), 1);
    assert_eq!(scope.plugin(), "p");
}

#[test]
fn error_classes_have_names() {
    assert_eq!(SdkErrorCode::ALL.len(), 7);
    for (e, name, code) in [
        (SdkError::unavailable("m"), "ErrUnavailable", "unavailable"),
        (SdkError::forbidden("m"), "ErrForbidden", "forbidden"),
        (SdkError::resource_exhausted("m"), "ErrResourceExhausted", "resource_exhausted"),
        (SdkError::invalid_argument("m"), "ErrInvalidArgument", "invalid_argument"),
        (SdkError::conflict("m"), "ErrConflict", "conflict"),
        (SdkError::internal("m"), "ErrInternal", "internal"),
    ] {
        assert_eq!(e.code.exception_name(), name);
        assert_eq!(e.code.as_str(), code);
        assert_eq!(e.message, "m");
    }
    assert_eq!(WatchEventKind::HistoryUnavailable.as_str(), "HISTORY_UNAVAILABLE");
}

#[test]
fn key_with_multibyte_characters_is_text() {
    assert_eq!(key_resource("/\u{e9}\u{4e2d}".as_bytes()).unwrap(), "/\u{e9}\u{4e2d}");
}
