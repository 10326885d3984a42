//! The call surface for plugins: which plugin serves a call, and what is answered.
use crate::plugin::manifest;
use crate::plugin::manifest::PluginManifest;
use crate::plugin::registry;
use crate::plugin::registry::PluginStatus;
use crate::status;
use crate::status::{CallStatus, CallStatusView, StatusCode};
use crate::text;
use crate::text::{is_blank, join3, join5};
use vstd::prelude::*;

verus! {

/// Why a call does not reach a plugin, where it does not: the state is that of the named plugin,
/// where it is loaded.
pub open spec fn call_refusal(plugin_id: Seq<char>, state: Option<PluginStatus>) -> Option<CallStatusView> {
    if text::blank(plugin_id) {
        Some(status::status(StatusCode::InvalidArgument, "plugin_id must not be empty"@))
    } else {
        match state {
            None => Some(
                status::status(StatusCode::NotFound, "plugin '"@ + plugin_id + "' not loaded"@),
            ),
            Some(PluginStatus::Started) => None,
            Some(s) => Some(
                status::status(
                    StatusCode::Unavailable,
                    "plugin '"@ + plugin_id + "' is not running (status="@
                        + registry::status_text(s) + ")"@,
                ),
            ),
        }
    }
}

/// Whether a call reaches a plugin.
pub fn check_call(plugin_id: &str, state: Option<&PluginStatus>) -> (r: Result<(), CallStatus>)
    ensures
        ({
            let known = match state {
                Some(s) => Some(*s),
                None => None,
            };
            match r {
                Ok(_) => call_refusal(plugin_id@, known) is None,
                Err(e) => call_refusal(plugin_id@, known) == Some(e@),
            }
        }),
{
    if is_blank(plugin_id) {
        return Err(CallStatus::new(StatusCode::InvalidArgument, "plugin_id must not be empty"));
    }
    match state {
        None => {
            let text = join3("plugin '", plugin_id, "' not loaded");
            Err(CallStatus::new(StatusCode::NotFound, text.as_str()))
        },
        Some(s) => {
            if s.is_started() {
                return Ok(());
            }
            let text = join5(
                "plugin '",
                plugin_id,
                "' is not running (status=",
                s.as_str(),
                ")",
            );
            Err(CallStatus::new(StatusCode::Unavailable, text.as_str()))
        },
    }
}

/// What is answered to a call that reached its plugin.
pub fn call_outcome(plugin_id: &str, method: &str, result: Result<Vec<u8>, String>) -> (r: Result<
    Vec<u8>,
    CallStatus,
>)
    ensures
        match (result, r) {
            (Ok(payload), Ok(answer)) => answer == payload,
            (Err(e), Err(s)) => s@ == status::status(
                StatusCode::Internal,
                "plugin '"@ + plugin_id@ + "' invoke '"@ + method@ + "' failed: "@ + e@,
            ),
            _ => false,
        },
{
    match result {
        Ok(payload) => Ok(payload),
        Err(e) => {
            let mut text = join5("plugin '", plugin_id, "' invoke '", method, "' failed: ");
            text.append(e.as_str());
            Err(CallStatus::new(StatusCode::Internal, text.as_str()))
        },
    }
}

/// What is listed of a plugin.
#[derive(Debug, Clone, PartialEq, Eq)]
pub struct PluginInfo {
    pub name: String,
    pub version: String,
    pub runtime: String,
    pub trust: String,
    pub status: String,
    pub healthy: bool,
    pub builtin: bool,
}

/// What is listed of a plugin: its manifest, and its state and health as they are now.
pub fn plugin_info(m: &PluginManifest, status: &PluginStatus, healthy: bool, builtin: bool) -> (r: PluginInfo)
    ensures
        r.name@ == m.name@,
        r.version@ == m.version@,
        r.runtime@ == manifest::runtime_text(m.runtime),
        r.trust@ == manifest::trust_text(m.trust),
        r.status@ == registry::status_text(*status),
        r.healthy == healthy,
        r.builtin == builtin,
{
    PluginInfo {
        name: m.name.clone(),
        version: m.version.clone(),
        runtime: m.runtime.as_str().to_owned(),
        trust: m.trust.as_str().to_owned(),
        status: status.as_str().to_owned(),
        healthy,
        builtin,
    }
}

/// Only a started plugin is called.
pub proof fn law_only_started_plugins_are_called(plugin_id: Seq<char>, state: Option<PluginStatus>)
    ensures
        call_refusal(plugin_id, state) is None <==> !text::blank(plugin_id) && state == Some(
            PluginStatus::Started,
        ),
{
}

} // verus!
