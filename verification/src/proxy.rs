//! The execution proxy: what is sent to an instance's agent for one call,
//! and what the agent's answer means for the caller and for the instance.

use crate::clock::Timestamp;
use crate::instance::VmInstance;
use crate::json::{is_json, json_string_literal, json_well_formed, quote_json};
use crate::text::{decimal_digits, decimal_text};
use crate::types::{Function, HyperdriveError, VmState};
use vstd::prelude::*;
use vstd::string::*;

verus! {

/// The time allowed for one call into a sandbox, in seconds.
pub const EXECUTION_TIMEOUT_SECS: u64 = 30;

/// One remote call, ready to be sent: a POST of `body` to `url`, abandoned
/// after `timeout_secs`.
#[derive(Debug)]
pub struct AgentCall {
    pub url: String,
    pub body: String,
    pub timeout_secs: u64,
}

/// What became of a call.
#[derive(Debug)]
pub enum AgentEvent {
    /// The agent answered. `status` is the HTTP status code, `status_line`
    /// the status as the transport renders it, code and reason phrase (such
    /// as `500 Internal Server Error`), and `body` the answer's body.
    Reply { status: u16, status_line: String, body: String },
    /// The agent answered, but its body is not text: it is no JSON
    /// document, whatever the status.
    Garbled { status: u16, status_line: String },
    /// No answer came within the time allowed.
    TimedOut,
    /// The request could not be delivered, or the answer could not be read.
    Unreachable(String),
    /// The caller gave the call up before it ended.
    Abandoned,
}

/// What a caller reports of an instance when handing it back.
#[derive(Clone, Copy, Debug, PartialEq, Eq, Structural)]
pub enum ReleaseOutcome {
    /// The sandbox is intact and may serve again.
    Healthy,
    /// The sandbox's state is unknown; it must not serve again.
    Suspect,
}

/// The address of the agent's call endpoint.
pub open spec fn agent_url_text(ip: Seq<char>, port: u16) -> Seq<char> {
    "http://"@ + ip + ":"@ + decimal_digits(port as nat) + "/execute"@
}

/// The JSON object `{"code":…,"payload":…}` around a quoted source text and
/// a payload document.
pub open spec fn agent_body_around(quoted_code: Seq<char>, payload: Seq<char>) -> Seq<char> {
    "{\"code\":"@ + quoted_code + ",\"payload\":"@ + payload + "}"@
}

/// The request body for running `code` on `payload`.
pub open spec fn agent_body_text(code: Seq<char>, payload: Seq<char>) -> Seq<char> {
    agent_body_around(json_string_literal(code), payload)
}

/// An HTTP status in the success class.
pub open spec fn status_is_success(status: u16) -> bool {
    200 <= status < 300
}

/// What a reply yields, given whether its body is well-formed JSON: the
/// body itself on success, otherwise an execution failure that carries the
/// status line or tells of the malformed answer.
pub open spec fn reply_yields(
    status: u16,
    status_line: String,
    body: String,
    well_formed: bool,
    result: Result<String, HyperdriveError>,
) -> bool {
    if !status_is_success(status) {
        result matches Err(e) && e.is_execution_failed(status_line@)
    } else if !well_formed {
        result matches Err(e) && e.is_execution_failed("malformed response"@)
    } else {
        result == Ok::<String, HyperdriveError>(body)
    }
}

impl AgentEvent {
    /// What the event alone says of the instance: an agent that answered
    /// may be intact, whatever it answered; one that did not is suspect.
    pub open spec fn outcome(self) -> ReleaseOutcome {
        match self {
            AgentEvent::Reply { .. } => ReleaseOutcome::Healthy,
            AgentEvent::Garbled { .. } => ReleaseOutcome::Healthy,
            _ => ReleaseOutcome::Suspect,
        }
    }

    /// What is reported of the instance once the call has ended and, where
    /// its agent had answered the call, its health has been probed: it is
    /// healthy if the agent answered both, and suspect otherwise.
    pub open spec fn outcome_after(self, agent_answers: bool) -> ReleaseOutcome {
        if self.outcome() == ReleaseOutcome::Healthy && agent_answers {
            ReleaseOutcome::Healthy
        } else {
            ReleaseOutcome::Suspect
        }
    }

    /// What the event yields for the caller.
    pub open spec fn yields(self, result: Result<String, HyperdriveError>) -> bool {
        match self {
            AgentEvent::Reply { status, status_line, body } => reply_yields(
                status,
                status_line,
                body,
                json_well_formed(body@),
                result,
            ),
            AgentEvent::Garbled { status, status_line } => result matches Err(e) && if status_is_success(
                status,
            ) {
                e.is_execution_failed("malformed response"@)
            } else {
                e.is_execution_failed(status_line@)
            },
            AgentEvent::TimedOut => result matches Err(e) && e.is_network("request timed out"@),
            AgentEvent::Unreachable(detail) => result matches Err(e) && e.is_network(detail@),
            AgentEvent::Abandoned => result matches Err(e) && e.is_network("call abandoned"@),
        }
    }

    /// What the event alone says of the instance. Where it says healthy,
    /// the instance's health is to be probed before it is released.
    pub fn release_outcome(&self) -> (outcome: ReleaseOutcome)
        ensures
            outcome == self.outcome(),
    {
        match self {
            AgentEvent::Reply { .. } => ReleaseOutcome::Healthy,
            AgentEvent::Garbled { .. } => ReleaseOutcome::Healthy,
            _ => ReleaseOutcome::Suspect,
        }
    }

    /// What is reported of the instance, given whether its agent answered
    /// the health probe made after the call.
    pub fn release_outcome_after(&self, agent_answers: bool) -> (outcome: ReleaseOutcome)
        ensures
            outcome == self.outcome_after(agent_answers),
    {
        match self.release_outcome() {
            ReleaseOutcome::Healthy => if agent_answers {
                ReleaseOutcome::Healthy
            } else {
                ReleaseOutcome::Suspect
            },
            ReleaseOutcome::Suspect => ReleaseOutcome::Suspect,
        }
    }

    /// What the event yields for the caller: the agent's JSON document as it
    /// came, or the failure.
    pub fn interpret(self) -> (result: Result<String, HyperdriveError>)
        ensures
            self.yields(result),
    {
        match self {
            AgentEvent::Reply { status, status_line, body } => {
                let well_formed = is_json(body.as_str());
                classify_reply(status, status_line, body, well_formed)
            },
            AgentEvent::Garbled { status, status_line } => {
                if is_success(status) {
                    Err(
                        HyperdriveError::FunctionExecutionFailed(
                            String::from_str("malformed response"),
                        ),
                    )
                } else {
                    Err(HyperdriveError::FunctionExecutionFailed(status_line))
                }
            },
            AgentEvent::TimedOut => Err(
                HyperdriveError::Network(String::from_str("request timed out")),
            ),
            AgentEvent::Unreachable(detail) => Err(HyperdriveError::Network(detail)),
            AgentEvent::Abandoned => Err(
                HyperdriveError::Network(String::from_str("call abandoned")),
            ),
        }
    }
}

/// Whether an HTTP status is in the success class.
pub fn is_success(status: u16) -> (ok: bool)
    ensures
        ok == status_is_success(status),
{
    200 <= status && status < 300
}

/// Judges an agent's reply, given whether its body is well-formed JSON.
pub fn classify_reply(status: u16, status_line: String, body: String, well_formed: bool) -> (result:
    Result<String, HyperdriveError>)
    ensures
        reply_yields(status, status_line, body, well_formed, result),
{
    if !is_success(status) {
        Err(HyperdriveError::FunctionExecutionFailed(status_line))
    } else if !well_formed {
        Err(HyperdriveError::FunctionExecutionFailed(String::from_str("malformed response")))
    } else {
        Ok(body)
    }
}

/// The address of the call endpoint of the agent at `ip:port`.
pub fn agent_url_for(ip: &str, port: u16) -> (url: String)
    ensures
        url@ == agent_url_text(ip@, port),
{
    String::from_str("http://").concat(ip).concat(":").concat(decimal_text(port).as_str()).concat(
        "/execute",
    )
}

/// The request body around an already quoted source text.
pub fn agent_body_from(quoted_code: &str, payload: &str) -> (body: String)
    ensures
        body@ == agent_body_around(quoted_code@, payload@),
{
    String::from_str("{\"code\":").concat(quoted_code).concat(",\"payload\":").concat(
        payload,
    ).concat("}")
}

/// The call with the given address and body parts, given whether the
/// payload is one JSON document. A payload that is none is refused: the
/// body would not be the object it is meant to be.
pub fn assemble_call(url: String, quoted_code: &str, payload: &str, payload_is_json: bool) -> (result:
    Result<AgentCall, HyperdriveError>)
    ensures
        match result {
            Ok(call) => {
                &&& payload_is_json
                &&& call.url == url
                &&& call.body@ == agent_body_around(quoted_code@, payload@)
                &&& call.timeout_secs == EXECUTION_TIMEOUT_SECS
            },
            Err(e) => !payload_is_json && e.is_execution_failed("payload is not a JSON document"@),
        },
{
    if payload_is_json {
        Ok(
            AgentCall {
                url,
                body: agent_body_from(quoted_code, payload),
                timeout_secs: EXECUTION_TIMEOUT_SECS,
            },
        )
    } else {
        Err(
            HyperdriveError::FunctionExecutionFailed(
                String::from_str("payload is not a JSON document"),
            ),
        )
    }
}

/// The call that runs `function` on `payload` at the agent at `ip:port`.
/// The payload has to be one JSON document.
pub fn plan_call(ip: &str, port: u16, function: &Function, payload: &str) -> (result: Result<
    AgentCall,
    HyperdriveError,
>)
    ensures
        match result {
            Ok(call) => {
                &&& json_well_formed(payload@)
                &&& call.url@ == agent_url_text(ip@, port)
                &&& call.body@ == agent_body_text(function.code@, payload@)
                &&& call.timeout_secs == EXECUTION_TIMEOUT_SECS
            },
            Err(e) => !json_well_formed(payload@) && e.is_execution_failed(
                "payload is not a JSON document"@,
            ),
        },
{
    let quoted = quote_json(function.code.as_str());
    let payload_is_json = is_json(payload);
    assemble_call(agent_url_for(ip, port), quoted.as_str(), payload, payload_is_json)
}

impl VmInstance {
    /// The instance may take a call: it is ready or already held.
    pub open spec fn may_execute(&self) -> bool {
        self.state == VmState::Ready || self.state == VmState::Busy
    }

    /// The instance takes a call with this payload: it has an address, it
    /// is ready or held, and the payload is one JSON document.
    pub open spec fn accepts(&self, payload: Seq<char>) -> bool {
        self.has_address() && self.may_execute() && json_well_formed(payload)
    }

    /// The error with which the instance refuses a call with this payload.
    /// The address is asked for first, host before port; then the state;
    /// then the payload.
    pub open spec fn refuses_with(&self, payload: Seq<char>, e: HyperdriveError) -> bool {
        if self.ip_address is None {
            e is NoIpAddress
        } else if self.port is None {
            e is NoPort
        } else if !self.may_execute() {
            e.is_not_ready("VM is not ready"@)
        } else {
            !json_well_formed(payload) && e.is_execution_failed("payload is not a JSON document"@)
        }
    }

    /// The address of the agent's call endpoint.
    pub fn agent_url(&self) -> (result: Result<String, HyperdriveError>)
        ensures
            match result {
                Ok(url) => self.has_address() && url@ == agent_url_text(
                    self.ip_address->0@,
                    self.port->0,
                ),
                Err(e) => if self.ip_address is None {
                    e is NoIpAddress
                } else {
                    self.port is None && e is NoPort
                },
            },
    {
        match &self.ip_address {
            None => Err(HyperdriveError::NoIpAddress),
            Some(ip) => match self.port {
                None => Err(HyperdriveError::NoPort),
                Some(port) => Ok(agent_url_for(ip.as_str(), port)),
            },
        }
    }

    /// Begins one call on the instance: it becomes busy, last used at `now`,
    /// and the call to send is returned. An instance that has no address,
    /// or is neither ready nor held, refuses and stays as it was; so it
    /// does where the payload is not one JSON document.
    pub fn execute_function(&mut self, function: &Function, payload: &str, now: Timestamp) -> (result:
        Result<AgentCall, HyperdriveError>)
        ensures
            match result {
                Ok(call) => {
                    &&& old(self).accepts(payload@)
                    &&& call.url@ == agent_url_text(old(self).ip_address->0@, old(self).port->0)
                    &&& call.body@ == agent_body_text(function.code@, payload@)
                    &&& call.timeout_secs == EXECUTION_TIMEOUT_SECS
                    &&& *final(self) == (VmInstance {
                        state: VmState::Busy,
                        last_used: now,
                        ..*old(self)
                    })
                },
                Err(e) => {
                    &&& !old(self).accepts(payload@)
                    &&& old(self).refuses_with(payload@, e)
                    &&& *final(self) == *old(self)
                },
            },
            old(self).wf() ==> final(self).wf(),
    {
        let url = match self.agent_url() {
            Ok(url) => url,
            Err(e) => {
                return Err(e);
            },
        };
        match self.state {
            VmState::Ready | VmState::Busy => {},
            _ => {
                return Err(HyperdriveError::VmNotReady(String::from_str("VM is not ready")));
            },
        }
        let quoted = quote_json(function.code.as_str());
        let payload_is_json = is_json(payload);
        match assemble_call(url, quoted.as_str(), payload, payload_is_json) {
            Err(e) => Err(e),
            Ok(call) => {
                self.last_used = now;
                self.state = VmState::Busy;
                Ok(call)
            },
        }
    }

    /// Ends the call on a busy instance, given whether its agent answered
    /// the health probe made after the call: an instance whose agent
    /// answered both the call and the probe is ready again, any other has
    /// failed; the caller gets what the event yields. An instance that is
    /// not busy refuses and stays as it was.
    pub fn finish_execution(&mut self, event: AgentEvent, agent_answers: bool) -> (result: Result<
        String,
        HyperdriveError,
    >)
        ensures
            if old(self).state == VmState::Busy {
                &&& event.yields(result)
                &&& *final(self) == (VmInstance {
                    state: if event.outcome_after(agent_answers) == ReleaseOutcome::Healthy {
                        VmState::Ready
                    } else {
                        VmState::Failed
                    },
                    ..*old(self)
                })
            } else {
                &&& result matches Err(e) && e.is_not_ready("VM is not busy"@)
                &&& *final(self) == *old(self)
            },
            old(self).wf() ==> final(self).wf(),
    {
        match self.state {
            VmState::Busy => {},
            _ => {
                return Err(HyperdriveError::VmNotReady(String::from_str("VM is not busy")));
            },
        }
        match event.release_outcome_after(agent_answers) {
            ReleaseOutcome::Healthy => {
                self.state = VmState::Ready;
            },
            ReleaseOutcome::Suspect => {
                self.state = VmState::Failed;
            },
        }
        event.interpret()
    }
}

} // verus!
