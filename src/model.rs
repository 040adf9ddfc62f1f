//! Incidents, host metadata and the failures of remote calls.

use crate::types::Severity;
use vstd::prelude::*;

verus! {

/// An active incident as reported by the monitoring API.
#[derive(Clone, Debug)]
pub struct Problem {
    pub event_id: String,
    /// Detection time, epoch seconds.
    pub clock: i64,
    /// Time of the last change, epoch seconds.
    pub last_change: i64,
    pub name: String,
    pub severity: Severity,
    pub acknowledged: bool,
}

/// Display metadata of the host an incident belongs to.
#[derive(Clone, Debug)]
pub struct HostMeta {
    pub host: Option<String>,
    /// Never empty: the display name, else the raw key, else a placeholder.
    pub display_name: String,
    /// 0 = enabled, 1 = disabled.
    pub status: Option<u8>,
}

/// A host row of an `event.get` answer.
#[derive(Clone, Debug)]
pub struct Host {
    pub host: Option<String>,
    pub name: Option<String>,
    pub status: Option<u8>,
}

/// An event of an `event.get` answer with the hosts it touches.
#[derive(Clone, Debug)]
pub struct EventWithHosts {
    pub hosts: Vec<Host>,
}

/// A `problem.get` row with its fields decoded to numbers but not yet checked.
#[derive(Clone, Debug)]
pub struct RawProblem {
    pub event_id: String,
    pub clock: i64,
    pub last_change: Option<i64>,
    pub severity: u8,
    pub name: String,
    pub acknowledged: bool,
}

/// Failures of a remote call and of decoding its answer.
#[derive(Debug)]
pub enum ZbxError {
    /// The HTTP client could not be built.
    Client { message: String },
    /// Connection or send failure.
    Request { message: String },
    /// A non-success HTTP status.
    HttpStatus { status: u16 },
    /// The body is not a well-formed answer.
    Json { message: String },
    /// A severity code outside the known range.
    InvalidSeverity { code: u8 },
    /// An error object in the answer envelope.
    Api { code: i64, message: String },
    /// The answer envelope holds no result.
    MissingField { field: String },
    /// Every attempt failed on a retriable error; the last one is kept.
    RetryExhausted { source: Box<ZbxError> },
}

impl RawProblem {
    /// A field-by-field copy.
    pub fn duplicate(&self) -> (r: RawProblem)
        ensures
            r == *self,
    {
        RawProblem {
            event_id: self.event_id.clone(),
            clock: self.clock,
            last_change: self.last_change,
            severity: self.severity,
            name: self.name.clone(),
            acknowledged: self.acknowledged,
        }
    }
}

impl Problem {
    /// A field-by-field copy.
    pub fn duplicate(&self) -> (r: Problem)
        ensures
            r == *self,
    {
        Problem {
            event_id: self.event_id.clone(),
            clock: self.clock,
            last_change: self.last_change,
            name: self.name.clone(),
            severity: self.severity,
            acknowledged: self.acknowledged,
        }
    }

    /// The problem a raw row decodes to, when its severity code is known.
    pub open spec fn spec_from_raw(raw: RawProblem) -> Option<Problem> {
        if 1 <= raw.severity <= 5 {
            Some(
                Problem {
                    event_id: raw.event_id,
                    clock: raw.clock,
                    last_change: match raw.last_change {
                        Some(t) => t,
                        None => raw.clock,
                    },
                    name: raw.name,
                    severity: choose|s: Severity| s.spec_code() == raw.severity as i64,
                    acknowledged: raw.acknowledged,
                },
            )
        } else {
            None
        }
    }

    /// The outcome of decoding a raw row.
    pub open spec fn spec_decode(raw: RawProblem) -> Result<Problem, ZbxError> {
        match Problem::spec_from_raw(raw) {
            Some(p) => Ok(p),
            None => Err(ZbxError::InvalidSeverity { code: raw.severity }),
        }
    }

    /// Checks the severity code of a raw row; the last change defaults to
    /// the detection time.
    pub fn from_raw(raw: RawProblem) -> (r: Result<Problem, ZbxError>)
        ensures
            r == Problem::spec_decode(raw),
    {
        match Severity::from_zabbix(raw.severity as i64) {
            Some(severity) => {
                proof {
                    let c = choose|s: Severity| s.spec_code() == raw.severity as i64;
                    assert(severity.spec_code() == raw.severity as i64);
                    assert(c.spec_code() == raw.severity as i64);
                    assert(c == severity);
                }
                let last_change = match raw.last_change {
                    Some(t) => t,
                    None => raw.clock,
                };
                Ok(Problem {
                    event_id: raw.event_id,
                    clock: raw.clock,
                    last_change,
                    name: raw.name,
                    severity,
                    acknowledged: raw.acknowledged,
                })
            },
            None => Err(ZbxError::InvalidSeverity { code: raw.severity }),
        }
    }
}

/// Whether every raw row has a known severity code.
pub open spec fn all_decodable(raws: Seq<RawProblem>) -> bool {
    forall|i: int| 0 <= i < raws.len() ==> (#[trigger] Problem::spec_from_raw(raws[i])) is Some
}

/// Decodes every row of a `problem.get` answer; one row with an unknown
/// severity code fails the whole answer.
pub fn decode_problems(raws: Vec<RawProblem>) -> (r: Result<Vec<Problem>, ZbxError>)
    ensures
        r is Ok <==> all_decodable(raws@),
        (r matches Ok(ps) ==> ps@.len() == raws@.len() && (forall|i: int|
            0 <= i < raws@.len() ==> Problem::spec_from_raw(raws@[i]) == Some(#[trigger] ps@[i]))),
        (r matches Err(e) ==> (exists|i: int|
            0 <= i < raws@.len() && Problem::spec_decode(#[trigger] raws@[i]) == Err::<Problem, ZbxError>(e))),
{
    let mut out: Vec<Problem> = Vec::new();
    let mut i: usize = 0;
    while i < raws.len()
        invariant
            i <= raws@.len(),
            out@.len() == i,
            forall|j: int| 0 <= j < i ==> Problem::spec_from_raw(raws@[j]) == Some(#[trigger] out@[j]),
        decreases raws@.len() - i,
    {
        let raw = raws[i].duplicate();
        match Problem::from_raw(raw) {
            Ok(p) => out.push(p),
            Err(e) => {
                proof {
                    assert(Problem::spec_decode(raws@[i as int]) == Err::<Problem, ZbxError>(e));
                }
                return Err(e);
            },
        }
        i += 1;
    }
    proof {
        assert forall|j: int| 0 <= j < raws@.len() implies (#[trigger] Problem::spec_from_raw(raws@[j])) is Some by {
            assert(Problem::spec_from_raw(raws@[j]) == Some(out@[j]));
        }
    }
    Ok(out)
}

} // verus!
