use hyperdrive::api::{
    create_function, find_function, health_report, invoke_response, list_functions, status_of,
};
use hyperdrive::function::FunctionStore;
use hyperdrive::types::{CreateFunctionRequest, HyperdriveError};
use hyperdrive::validate::{
    check_name_chars, name_char_allowed, validate_function, validate_javascript_syntax, Forbidden,
    ValidationError,
};

const HANDLER: &str = "export default function handler(event) { return {}; }";

fn request(name: &str, code: &str, runtime: &str) -> CreateFunctionRequest {
    CreateFunctionRequest {
        name: name.to_string(),
        code: code.to_string(),
        runtime: runtime.to_string(),
    }
}

#[test]
fn test_function_creation() {
    let mut store = FunctionStore::new();

    let request = CreateFunctionRequest {
        name: "test-function".to_string(),
        code: "export default function handler(event) { return { message: 'Hello!' }; }"
            .to_string(),
        runtime: "v8".to_string(),
    };

    let result = store.create(request);
    assert!(result.is_ok());

    let function = store.get("test-function");
    assert!(function.is_some());
}

#[test]
fn test_function_validation() {
    let mut store = FunctionStore::new();

    // Test empty name
    let request = CreateFunctionRequest {
        name: "".to_string(),
        code: "export default function handler(event) { return {}; }".to_string(),
        runtime: "v8".to_string(),
    };
    assert!(store.create(request).is_err());

    // Test invalid runtime
    let request = CreateFunctionRequest {
        name: "test".to_string(),
        code: "export default function handler(event) { return {}; }".to_string(),
        runtime: "python".to_string(),
    };
    assert!(store.create(request).is_err());

    // Test forbidden pattern
    let request = CreateFunctionRequest {
        name: "test".to_string(),
        code: "const fs = require('fs'); export default function handler(event) { return {}; }"
            .to_string(),
        runtime: "v8".to_string(),
    };
    assert!(store.create(request).is_err());
}

#[test]
fn test_function_list_and_delete() {
    let mut store = FunctionStore::new();

    // Create multiple functions
    for i in 0..3 {
        let request = CreateFunctionRequest {
            name: format!("test-function-{}", i),
            code: "export default function handler(event) { return {}; }".to_string(),
            runtime: "v8".to_string(),
        };
        store.create(request).unwrap();
    }

    // List functions
    let functions = store.list();
    assert_eq!(functions.len(), 3);

    // Delete function
    let deleted = store.delete("test-function-1");
    assert!(deleted);

    let functions = store.list();
    assert_eq!(functions.len(), 2);

    // Try to delete non-existent function
    let deleted = store.delete("non-existent");
    assert!(!deleted);
}

#[test]
fn each_rule_reports_its_own_error() {
    let cases: Vec<(CreateFunctionRequest, ValidationError)> = vec![
        (request("", HANDLER, "v8"), ValidationError::EmptyName),
        (request("bad name", HANDLER, "v8"), ValidationError::InvalidName),
        (request("dots.are.out", HANDLER, "v8"), ValidationError::InvalidName),
        (request(&"a".repeat(65), HANDLER, "v8"), ValidationError::NameTooLong),
        (request("ok", "", "v8"), ValidationError::EmptyCode),
        (
            request("ok", &format!("export default {}", "x".repeat(1024 * 1024)), "v8"),
            ValidationError::CodeTooLarge,
        ),
        (request("ok", HANDLER, "python"), ValidationError::UnsupportedRuntime),
        (request("ok", HANDLER, "V8"), ValidationError::UnsupportedRuntime),
        (request("ok", "function handler() {}", "v8"), ValidationError::MissingExport),
        (
            request("ok", "require('fs'); export default 1", "v8"),
            ValidationError::ForbiddenPattern(Forbidden::RequireFsSingleQuoted),
        ),
        (
            request("ok", "require(\"fs\"); module.exports = 1", "v8"),
            ValidationError::ForbiddenPattern(Forbidden::RequireFsDoubleQuoted),
        ),
        (
            request("ok", "import fs from 'fs'; export default 1", "v8"),
            ValidationError::ForbiddenPattern(Forbidden::ImportFs),
        ),
        (
            request("ok", "export default () => process.exit(1)", "v8"),
            ValidationError::ForbiddenPattern(Forbidden::ProcessExit),
        ),
        (
            request("ok", "export default () => __dirname", "v8"),
            ValidationError::ForbiddenPattern(Forbidden::Dirname),
        ),
        (
            request("ok", "export default () => __filename", "v8"),
            ValidationError::ForbiddenPattern(Forbidden::Filename),
        ),
    ];
    for (request, expected) in cases {
        assert_eq!(validate_function(&request), Err(expected));
    }
}

#[test]
fn rules_are_tried_in_order() {
    // An empty name wins over everything else that is wrong.
    assert_eq!(validate_function(&request("", "", "python")), Err(ValidationError::EmptyName));
    // Bad characters win over an overlong name.
    let long_and_bad = format!("{} ", "a".repeat(70));
    assert_eq!(
        validate_function(&request(&long_and_bad, HANDLER, "v8")),
        Err(ValidationError::InvalidName)
    );
    // Empty code wins over a wrong runtime; a wrong runtime over bad syntax.
    assert_eq!(validate_function(&request("ok", "", "python")), Err(ValidationError::EmptyCode));
    assert_eq!(
        validate_function(&request("ok", "no handler", "python")),
        Err(ValidationError::UnsupportedRuntime)
    );
    // A missing export wins over a forbidden construct; the first construct
    // of the table wins over a later one.
    assert_eq!(validate_javascript_syntax("process.exit(0)"), Err(ValidationError::MissingExport));
    assert_eq!(
        validate_javascript_syntax("export default __filename + process.exit"),
        Err(ValidationError::ForbiddenPattern(Forbidden::ProcessExit))
    );
}

#[test]
fn limits_are_inclusive_and_counted_in_bytes() {
    assert_eq!(validate_function(&request(&"a".repeat(64), HANDLER, "v8")), Ok(()));
    // Thirty-three two-byte letters are sixty-six bytes.
    assert_eq!(
        validate_function(&request(&"é".repeat(33), HANDLER, "v8")),
        Err(ValidationError::NameTooLong)
    );
    assert_eq!(validate_function(&request(&"é".repeat(32), HANDLER, "v8")), Ok(()));
    let prefix = "export default ";
    let exact = format!("{}{}", prefix, "x".repeat(1024 * 1024 - prefix.len()));
    assert_eq!(exact.len(), 1024 * 1024);
    assert_eq!(validate_function(&request("ok", &exact, "v8")), Ok(()));
}

#[test]
fn name_characters_follow_unicode() {
    assert!(check_name_chars("abc-DEF_123"));
    assert!(check_name_chars("naïve-函数"));
    assert!(check_name_chars(""));
    assert!(!check_name_chars("a b"));
    assert!(!check_name_chars("a/b"));
    assert!(!check_name_chars("tab\t"));
}

#[test]
fn module_exports_counts_as_an_export() {
    assert_eq!(validate_javascript_syntax("module.exports = () => 1"), Ok(()));
    assert_eq!(validate_javascript_syntax("export default 1"), Ok(()));
    assert_eq!(validate_javascript_syntax("export  default 1"), Err(ValidationError::MissingExport));
}

#[test]
fn messages_read_as_documented() {
    assert_eq!(ValidationError::EmptyName.message(), "Function name cannot be empty");
    assert_eq!(
        ValidationError::InvalidName.message(),
        "Function name can only contain alphanumeric characters, hyphens, and underscores"
    );
    assert_eq!(ValidationError::NameTooLong.message(), "Function name cannot exceed 64 characters");
    assert_eq!(ValidationError::EmptyCode.message(), "Function code cannot be empty");
    assert_eq!(ValidationError::CodeTooLarge.message(), "Function code cannot exceed 1MB");
    assert_eq!(
        ValidationError::UnsupportedRuntime.message(),
        "Only 'v8' runtime is currently supported"
    );
    assert_eq!(
        ValidationError::MissingExport.message(),
        "Function must export a default function"
    );
    assert_eq!(
        ValidationError::ForbiddenPattern(Forbidden::RequireFsDoubleQuoted).message(),
        "Function contains forbidden pattern: require(\"fs\")"
    );
    assert_eq!(Forbidden::ImportFs.pattern_text(), "import fs");
}

#[test]
fn create_stores_what_was_requested() {
    let mut store = FunctionStore::new();
    let made = store
        .create_at(request("adder", HANDLER, "v8"), "2024-05-01T00:00:00+00:00".to_string())
        .unwrap();
    assert_eq!(made.name, "adder");
    assert_eq!(made.code, HANDLER);
    assert_eq!(made.runtime, "v8");
    assert_eq!(made.created_at, "2024-05-01T00:00:00+00:00");

    let found = store.get("adder").unwrap();
    assert_eq!(found.name, "adder");
    assert_eq!(found.code, HANDLER);
    assert_eq!(found.created_at, "2024-05-01T00:00:00+00:00");
    assert!(store.get("Adder").is_none());
    assert!(store.get("adde").is_none());
}

#[test]
fn create_stamps_the_current_time() {
    let mut store = FunctionStore::new();
    let made = store.create(request("now", HANDLER, "v8")).unwrap();
    // RFC 3339 in UTC: date, 'T', time, offset.
    assert!(made.created_at.len() >= 25);
    assert_eq!(&made.created_at[4..5], "-");
    assert_eq!(&made.created_at[10..11], "T");
    assert!(made.created_at.ends_with("+00:00"));
}

#[test]
fn create_replaces_a_function_of_the_same_name() {
    let mut store = FunctionStore::new();
    store.create_at(request("f", HANDLER, "v8"), "first".to_string()).unwrap();
    store.create_at(request("g", HANDLER, "v8"), "second".to_string()).unwrap();
    let other = "module.exports = 2";
    store.create_at(request("f", other, "v8"), "third".to_string()).unwrap();

    let all = store.list();
    assert_eq!(all.len(), 2);
    assert_eq!(all[0].name, "f");
    assert_eq!(all[0].code, other);
    assert_eq!(all[0].created_at, "third");
    assert_eq!(all[1].name, "g");
}

#[test]
fn a_refused_request_changes_nothing() {
    let mut store = FunctionStore::new();
    store.create_at(request("f", HANDLER, "v8"), "first".to_string()).unwrap();
    let refused = store.create_at(request("f", "no handler", "v8"), "second".to_string());
    assert_eq!(refused.err(), Some(ValidationError::MissingExport));
    let kept = store.get("f").unwrap();
    assert_eq!(kept.code, HANDLER);
    assert_eq!(kept.created_at, "first");
    assert_eq!(store.list().len(), 1);
}

#[test]
fn update_stores_under_the_given_name() {
    let mut store = FunctionStore::new();
    store.create_at(request("f", HANDLER, "v8"), "first".to_string()).unwrap();
    let other = "module.exports = 3";
    // The request's own name is validated, but the function goes under "f".
    let updated = store.update_at("f", request("other", other, "v8"), "second".to_string()).unwrap();
    assert_eq!(updated.name, "f");
    assert_eq!(updated.code, other);
    assert!(store.get("other").is_none());
    assert_eq!(store.get("f").unwrap().created_at, "second");

    // A request with a bad name of its own is refused.
    let refused = store.update_at("f", request("", other, "v8"), "third".to_string());
    assert_eq!(refused.err(), Some(ValidationError::EmptyName));
    assert_eq!(store.get("f").unwrap().created_at, "second");

    // Updating a name that is not registered registers it.
    store.update("fresh", request("fresh", HANDLER, "v8")).unwrap();
    assert_eq!(store.list().len(), 2);
}

#[test]
fn delete_keeps_the_order_of_the_rest() {
    let mut store = FunctionStore::new();
    for name in ["a", "b", "c", "d"] {
        store.create(request(name, HANDLER, "v8")).unwrap();
    }
    assert!(store.delete("b"));
    assert!(!store.delete("b"));
    let names: Vec<String> = store.list().into_iter().map(|f| f.name).collect();
    assert_eq!(names, vec!["a".to_string(), "c".to_string(), "d".to_string()]);
}

#[test]
fn stats_count_functions_bytes_and_runtimes() {
    let mut store = FunctionStore::new();
    let empty = store.get_function_stats();
    assert_eq!(empty.total_functions, 0);
    assert_eq!(empty.total_code_size, 0);
    assert!(empty.runtimes.is_empty());

    store.create(request("a", HANDLER, "v8")).unwrap();
    let accented = "export default 'é'";
    store.create(request("b", accented, "v8")).unwrap();
    let stats = store.get_function_stats();
    assert_eq!(stats.total_functions, 2);
    assert_eq!(stats.total_code_size, HANDLER.len() + accented.len());
    assert_eq!(stats.total_code_size, 53 + 19);
    assert_eq!(stats.runtimes.len(), 1);
    assert_eq!(stats.runtimes[0].runtime, "v8");
    assert_eq!(stats.runtimes[0].functions, 2);
}

#[test]
fn endpoints_map_results_to_statuses() {
    let mut store = FunctionStore::new();
    let made = create_function(&mut store, request("f", HANDLER, "v8")).unwrap();
    assert_eq!(made.name, "f");
    assert!(made.created);
    assert_eq!(create_function(&mut store, request("", HANDLER, "v8")).err(), Some(400));

    assert_eq!(find_function(&store, "f").unwrap().code, HANDLER);
    assert_eq!(find_function(&store, "missing").err(), Some(404));

    let listed = list_functions(&store);
    assert_eq!(listed.functions.len(), 1);
    assert_eq!(listed.functions[0].name, "f");

    assert_eq!(status_of(&HyperdriveError::PoolExhausted), 503);
    assert_eq!(status_of(&HyperdriveError::Network("down".to_string())), 500);
    assert_eq!(
        status_of(&HyperdriveError::FunctionExecutionFailed("500 Internal Server Error".to_string())),
        500
    );
    assert_eq!(status_of(&HyperdriveError::NoIpAddress), 500);
    assert_eq!(status_of(&HyperdriveError::NoPort), 500);

    let ok = invoke_response(Ok("{\"message\":\"Hello!\"}".to_string())).unwrap();
    assert_eq!(ok.result, "{\"message\":\"Hello!\"}");
    assert_eq!(invoke_response(Err(HyperdriveError::PoolExhausted)).err(), Some(503));
    assert_eq!(
        invoke_response(Err(HyperdriveError::VmNotReady("x".to_string()))).err(),
        Some(500)
    );
}

#[test]
fn health_report_is_fixed_but_for_its_time() {
    let report = health_report("2024-01-01T00:00:00+00:00".to_string());
    assert_eq!(report.platform, "hyperdrive-rust");
    assert_eq!(report.status, "healthy");
    assert_eq!(report.version, "0.1.0");
    assert_eq!(report.timestamp, "2024-01-01T00:00:00+00:00");
    assert!(report.components.firecracker);
    assert!(report.components.dns);
    assert!(report.components.ssl);
    assert!(report.components.cdn);
    assert!(report.components.monitoring);
}

#[test]
fn error_messages_carry_their_detail() {
    assert_eq!(
        HyperdriveError::VmCreationFailed("no image".to_string()).message(),
        "VM creation failed: no image"
    );
    assert_eq!(HyperdriveError::VmNotReady("booting".to_string()).message(), "VM not ready: booting");
    assert_eq!(
        HyperdriveError::FunctionExecutionFailed("500 Internal Server Error".to_string()).message(),
        "Function execution failed: 500 Internal Server Error"
    );
    assert_eq!(HyperdriveError::PoolExhausted.message(), "Pool exhausted");
    assert_eq!(HyperdriveError::Io("disk".to_string()).message(), "IO error: disk");
    assert_eq!(HyperdriveError::Network("reset".to_string()).message(), "Network error: reset");
    assert_eq!(HyperdriveError::NoIpAddress.message(), "VM has no IP address");
    assert_eq!(HyperdriveError::NoPort.message(), "VM has no port");
}

#[test]
fn hyphen_and_underscore_are_allowed_beside_alphanumerics() {
    assert!(name_char_allowed('a', true));
    assert!(name_char_allowed('-', false));
    assert!(name_char_allowed('_', false));
    assert!(!name_char_allowed('.', false));
    assert!(!name_char_allowed(' ', false));
}
