//! The commands of the control surface: start a scan, read or flip the
//! rescan switch.

use vstd::prelude::*;
use vstd::string::StringExecFns;
use crate::scanner::rescan::RescanStatus;
use crate::scanner::worker::{timeout_secs, ScanJob, DEFAULT_TIMEOUT_SECS};
use crate::util::text::{decimal, push_decimal};

verus! {

/// Status and message of an answer.
#[derive(Debug, Clone)]
pub struct Response {
    pub status: u16,
    pub message: String,
}

/// What a scan command carries: the hosts and, if given, the seconds one
/// probe may take.
#[derive(Debug, Clone)]
pub struct ScanInput {
    pub hosts: Vec<String>,
    pub timeout: Option<i32>,
}

/// A scan that a command asked for: the job to run, and the answer to give
/// once it has been handed on.
pub struct ScanPlan {
    pub job: ScanJob,
    pub reply: Response,
}

/// The seconds a command allows one probe: those it names, else ten.
pub open spec fn timeout_of(input: ScanInput) -> i32 {
    match input.timeout {
        Some(seconds) => seconds,
        None => DEFAULT_TIMEOUT_SECS,
    }
}

/// The host a single scan goes to: the first one named, else the local
/// host.
pub open spec fn single_host(input: ScanInput) -> Seq<char> {
    if input.hosts@.len() > 0 {
        input.hosts@[0]@
    } else {
        "127.0.0.1"@
    }
}

/// The answer to a greeting.
pub fn index() -> (response: Response)
    ensures
        response.status == 200,
        response.message@ == "Hello, World!"@,
{
    crate::scanner::http::success(String::from_str("Hello, World!"))
}

/// Plans the scan of one host: the first host of the command, or the local
/// host where it names none, with one worker.
pub fn single_scan(input: ScanInput) -> (plan: Result<ScanPlan, Response>)
    ensures
        plan matches Ok(p) && {
            &&& p.job.ips@.len() == 1
            &&& p.job.ips@[0]@ == single_host(input)
            &&& p.job.timeout == timeout_secs(timeout_of(input))
            &&& p.job.workers == 1
            &&& p.reply.status == 200
            &&& p.reply.message@ == "scanning "@ + single_host(input) + " with "@ + decimal(
                timeout_of(input) as int,
            ) + "s timeout"@
        },
{
    let timeout_sec: i32 = match input.timeout {
        Some(seconds) => seconds,
        None => DEFAULT_TIMEOUT_SECS,
    };
    let host: String = if input.hosts.len() > 0 {
        input.hosts[0].clone()
    } else {
        String::from_str("127.0.0.1")
    };
    let mut message = String::from_str("scanning ");
    message.append(host.as_str());
    message.append(" with ");
    push_decimal(&mut message, timeout_sec as i64);
    message.append("s timeout");
    let mut ips: Vec<String> = Vec::new();
    ips.push(host);
    match ScanJob::new(ips, Some(timeout_sec), None) {
        Some(job) => Ok(ScanPlan { job, reply: crate::scanner::http::success(message) }),
        None => Err(crate::scanner::http::error(String::from_str("no target provided"))),
    }
}

/// Plans the scan of every host of the command, with one worker. A command
/// that names no host is refused.
pub fn multi_scan(input: ScanInput) -> (plan: Result<ScanPlan, Response>)
    ensures
        plan is Ok <==> input.hosts@.len() > 0,
        plan matches Ok(p) ==> {
            &&& p.job.ips == input.hosts
            &&& p.job.timeout == timeout_secs(timeout_of(input))
            &&& p.job.workers == 1
            &&& p.reply.status == 200
            &&& p.reply.message@ == "started scanning "@ + decimal(input.hosts@.len() as int)
                + " hosts"@
        },
        plan matches Err(refusal) ==> refusal.status == 400 && refusal.message@
            == "no targets provided"@,
{
    let timeout_sec: i32 = match input.timeout {
        Some(seconds) => seconds,
        None => DEFAULT_TIMEOUT_SECS,
    };
    let len: usize = input.hosts.len();
    match ScanJob::new(input.hosts, Some(timeout_sec), None) {
        Some(job) => {
            let mut message = String::from_str("started scanning ");
            crate::util::text::push_digits(&mut message, len as u64);
            message.append(" hosts");
            Ok(ScanPlan { job, reply: crate::scanner::http::success(message) })
        },
        None => Err(crate::scanner::http::error(String::from_str("no targets provided"))),
    }
}

/// The answer where the scan of one host could not be handed on.
pub fn single_scan_failed(host: &str, reason: &str) -> (response: Response)
    ensures
        response.status == 400,
        response.message@ == "failed to run scan job for "@ + host@ + ": "@ + reason@,
{
    let mut message = String::from_str("failed to run scan job for ");
    message.append(host);
    message.append(": ");
    message.append(reason);
    crate::scanner::http::error(message)
}

/// The answer where the scan of several hosts could not be handed on.
pub fn multi_scan_failed(reason: &str) -> (response: Response)
    ensures
        response.status == 400,
        response.message@ == "failed to run scan job: "@ + reason@,
{
    let mut message = String::from_str("failed to run scan job: ");
    message.append(reason);
    crate::scanner::http::error(message)
}

/// Reads or flips the rescan switch. `status` reports the switch and leaves
/// it as it is; `toggle` flips it and reports the new value; any other
/// word is refused and changes nothing.
pub fn toggle_repings(status: &mut RescanStatus, input: &str) -> (response: Response)
    ensures
        input@ == "status"@ ==> {
            &&& *final(status) == *old(status)
            &&& response.status == 200
            &&& response.message@ == "rescanner is "@ + old(status).name()
        },
        input@ != "status"@ && input@ == "toggle"@ ==> {
            &&& *final(status) == old(status).flipped()
            &&& response.status == 200
            &&& response.message@ == "rescanner is now "@ + old(status).flipped().name()
        },
        input@ != "status"@ && input@ != "toggle"@ ==> {
            &&& *final(status) == *old(status)
            &&& response.status == 400
            &&& response.message@ == "invalid input"@
        },
{
    let word = String::from_str(input);
    if word == String::from_str("status") {
        let mut message = String::from_str("rescanner is ");
        message.append(status.to_text().as_str());
        crate::scanner::http::success(message)
    } else if word == String::from_str("toggle") {
        status.toggle();
        let mut message = String::from_str("rescanner is now ");
        message.append(status.to_text().as_str());
        crate::scanner::http::success(message)
    } else {
        crate::scanner::http::error(String::from_str("invalid input"))
    }
}

} // verus!
