//! What the service answers: the shapes and status codes behind each
//! endpoint, decided from the registry's and the pool's results.

use crate::clock::{rfc3339_of, timestamp_in_range, Timestamp};
use crate::function::FunctionStore;
use crate::pool::VmPool;
use crate::types::{
    CreateFunctionRequest, CreateFunctionResponse, Function, FunctionListResponse,
    HealthComponents, HealthResponse, HyperdriveError, InvokeResponse, VmListResponse,
};
use crate::validate::verdict;
use vstd::prelude::*;
use vstd::string::*;

verus! {

/// Status of a request that broke a validation rule.
pub const STATUS_BAD_REQUEST: u16 = 400;

/// Status of a call to a function that is not registered.
pub const STATUS_NOT_FOUND: u16 = 404;

/// Status of a failure on the service's side.
pub const STATUS_INTERNAL_ERROR: u16 = 500;

/// Status of a request that found the pool exhausted.
pub const STATUS_UNAVAILABLE: u16 = 503;

/// The status under which an error is reported: an exhausted pool is a
/// matter of capacity, everything else a failure of the service.
pub open spec fn status_for(error: HyperdriveError) -> u16 {
    match error {
        HyperdriveError::PoolExhausted => STATUS_UNAVAILABLE,
        _ => STATUS_INTERNAL_ERROR,
    }
}

/// The status under which an error is reported.
pub fn status_of(error: &HyperdriveError) -> (status: u16)
    ensures
        status == status_for(*error),
{
    match error {
        HyperdriveError::PoolExhausted => STATUS_UNAVAILABLE,
        _ => STATUS_INTERNAL_ERROR,
    }
}

/// The health report stamped with the given time.
pub fn health_report(timestamp: String) -> (report: HealthResponse)
    ensures
        report.platform@ == "hyperdrive-rust"@,
        report.status@ == "healthy"@,
        report.version@ == "0.1.0"@,
        report.timestamp == timestamp,
        report.components == (HealthComponents {
            firecracker: true,
            dns: true,
            ssl: true,
            cdn: true,
            monitoring: true,
        }),
{
    HealthResponse {
        platform: String::from_str("hyperdrive-rust"),
        status: String::from_str("healthy"),
        version: String::from_str("0.1.0"),
        timestamp,
        components: HealthComponents {
            firecracker: true,
            dns: true,
            ssl: true,
            cdn: true,
            monitoring: true,
        },
    }
}

/// The health report stamped with the current time.
pub fn health_check() -> (report: HealthResponse)
    ensures
        report.platform@ == "hyperdrive-rust"@,
        report.status@ == "healthy"@,
        report.version@ == "0.1.0"@,
        exists|secs: i64, nanos: u32|
            timestamp_in_range(secs, nanos) && report.timestamp@ == #[trigger] rfc3339_of(secs, nanos),
        report.components == (HealthComponents {
            firecracker: true,
            dns: true,
            ssl: true,
            cdn: true,
            monitoring: true,
        }),
{
    let now = Timestamp::now();
    let report = health_report(now.to_rfc3339());
    assert(report.timestamp@ == rfc3339_of(now.seconds(), now.subsec_nanos()));
    report
}

/// The registry's contents, in registration order.
pub fn list_functions(store: &FunctionStore) -> (response: FunctionListResponse)
    requires
        store.wf(),
    ensures
        response.functions@.len() == store.len(),
        forall|i: int|
            0 <= i < response.functions@.len() ==> (#[trigger] response.functions@[i])@
                == store.entries()[i],
{
    FunctionListResponse { functions: store.list() }
}

/// Registers the requested function. A request that breaks a validation
/// rule is a bad request and changes nothing.
pub fn create_function(store: &mut FunctionStore, request: CreateFunctionRequest) -> (result:
    Result<CreateFunctionResponse, u16>)
    requires
        old(store).wf(),
    ensures
        final(store).wf(),
        match result {
            Ok(response) => {
                &&& verdict(request.name@, request.code@, request.runtime@) is None
                &&& response.name@ == request.name@
                &&& response.created
                &&& final(store)@.contains_key(request.name@)
                &&& final(store)@[request.name@].code == request.code@
                &&& final(store)@[request.name@].runtime == request.runtime@
                &&& final(store)@ == old(store)@.insert(request.name@, final(store)@[request.name@])
            },
            Err(status) => {
                &&& verdict(request.name@, request.code@, request.runtime@) is Some
                &&& status == STATUS_BAD_REQUEST
                &&& final(store)@ == old(store)@
            },
        },
{
    match store.create(request) {
        Ok(function) => Ok(CreateFunctionResponse { name: function.name, created: true }),
        Err(_) => Err(STATUS_BAD_REQUEST),
    }
}

/// The function to invoke under `name`; a name that is not registered is
/// not found.
pub fn find_function(store: &FunctionStore, name: &str) -> (result: Result<Function, u16>)
    requires
        store.wf(),
    ensures
        match result {
            Ok(function) => store@.contains_key(name@) && function@ == store@[name@],
            Err(status) => !store@.contains_key(name@) && status == STATUS_NOT_FOUND,
        },
{
    match store.get(name) {
        Some(function) => Ok(function),
        None => Err(STATUS_NOT_FOUND),
    }
}

/// The answer to an invocation: the sandbox's document on success, the
/// error's status otherwise.
pub fn invoke_response(outcome: Result<String, HyperdriveError>) -> (result: Result<
    InvokeResponse,
    u16,
>)
    ensures
        match outcome {
            Ok(document) => result matches Ok(response) && response.result == document,
            Err(error) => result == Err::<InvokeResponse, u16>(status_for(error)),
        },
{
    match outcome {
        Ok(document) => Ok(InvokeResponse { result: document }),
        Err(error) => Err(status_of(&error)),
    }
}

/// The inventory of the pool's instances.
pub fn list_vms(pool: &VmPool) -> (response: VmListResponse)
    requires
        pool.wf(),
    ensures
        response.vms matches Some(lines) && lines@.len() == pool.manager().len() && forall|i: int|
            0 <= i < lines@.len() ==> pool.manager().entries()[i].describes(#[trigger] lines@[i]),
{
    VmListResponse { vms: Some(pool.list_active()) }
}

} // verus!
