use coord_agent::plugin::abi::{
    core_err_code, core_err_name, core_import_names, core_transport_errors, host_ops, sdk_errors,
};
use coord_agent::plugin::sdk::backend::SdkErrorCode;
use coord_agent::plugin::sdk::bind::install;
use coord_agent::plugin::wasm_engine::HOST_IMPORTS;
use std::collections::BTreeSet;

const CODES: [SdkErrorCode; 7] = [
    SdkErrorCode::Forbidden,
    SdkErrorCode::NotFound,
    SdkErrorCode::InvalidArgument,
    SdkErrorCode::Unavailable,
    SdkErrorCode::ResourceExhausted,
    SdkErrorCode::Conflict,
    SdkErrorCode::Internal,
];

#[test]
fn core_abi_surface_matches_ledger() {
    let actual: BTreeSet<&str> = HOST_IMPORTS.iter().copied().collect();
    let declared: BTreeSet<&str> = core_import_names().into_iter().collect();
    assert_eq!(actual, declared);
    assert!(host_ops().iter().any(|op| op.core.is_none()));
}

#[test]
fn js_surface_covers_ledger() {
    let places: BTreeSet<&str> = install().iter().map(|call| call.place()).collect();
    for op in host_ops() {
        let place = op.js.expect("every operation is offered to scripts");
        assert!(
            place.contains('#') || place == "limits" || places.contains(place),
            "{} -> {place}",
            op.wit
        );
    }
    for extra in ["util.encode", "util.decode", "util.isForbidden", "util.sleep"] {
        assert!(places.contains(extra), "{extra}");
    }
    assert_eq!(places.len(), 22);
}

#[test]
fn error_names_are_consistent_across_paths() {
    let specs = sdk_errors();
    for code in CODES {
        let name = code.exception_name();
        let spec = specs.iter().find(|s| s.name == name).expect("listed");
        assert_eq!(spec.wit, code.as_str().replace('_', "-"));
        assert_eq!(core_err_code(code), spec.core);
        assert_eq!(core_err_name(spec.core), name);
        assert_eq!(name, core_err_name(core_err_code(code)));
    }
    for (name, code) in core_transport_errors() {
        assert!(!specs.iter().any(|s| s.core == code));
        assert_eq!(core_err_name(code), name);
    }
    let codes: BTreeSet<i32> = specs.iter().map(|s| s.core).collect();
    assert_eq!(codes.len(), specs.len());
}

#[test]
fn unknown_codes_are_internal() {
    assert_eq!(core_err_name(0), "ErrInternal");
    assert_eq!(core_err_name(-99), "ErrInternal");
    assert_eq!(core_err_name(-7), "ErrBufferTooSmall");
    assert_eq!(core_err_name(-8), "ErrMemoryAccess");
    assert_eq!(core_err_code(SdkErrorCode::Forbidden), -1);
    assert_eq!(core_err_code(SdkErrorCode::Conflict), -9);
}

#[test]
fn ledger_lists_every_operation_once() {
    let ops = host_ops();
    assert_eq!(ops.len(), 27);
    let names: BTreeSet<&str> = ops.iter().map(|op| op.wit).collect();
    assert_eq!(names.len(), 27);
    let declared_errors: BTreeSet<&str> = sdk_errors().iter().map(|e| e.wit).collect();
    assert!(declared_errors.contains("resource-exhausted"));
    assert!(ops.iter().any(|op| op.wit.starts_with("subscription.")));
    assert!(ops.iter().any(|op| op.wit.starts_with("uploader.")));
    assert!(ops.iter().any(|op| op.wit.starts_with("downloader.")));
}
