//! Acknowledgement filters and incident severities.

use crate::text::{ascii_lower_seq, text_eq, to_ascii_lower};
use vstd::prelude::*;

verus! {

/// Which incidents to request, by acknowledgement state.
#[derive(Clone, Copy, Debug, PartialEq, Eq, Structural)]
pub enum AckFilter {
    Acked,
    Unacked,
    All,
}

/// Incident severity, ordered from least to most severe.
#[derive(Clone, Copy, Debug, PartialEq, Eq, Structural, PartialOrd, Ord, Hash)]
pub enum Severity {
    Info,
    Warning,
    Average,
    High,
    Disaster,
}

impl AckFilter {
    /// The filter's canonical name.
    pub open spec fn spec_name(self) -> Seq<char> {
        match self {
            AckFilter::Acked => "ack"@,
            AckFilter::Unacked => "unack"@,
            AckFilter::All => "all"@,
        }
    }

    /// The filter a lower-cased name stands for, if any.
    pub open spec fn spec_from_lower(s: Seq<char>) -> Option<AckFilter> {
        if s == "ack"@ || s == "acked"@ {
            Some(AckFilter::Acked)
        } else if s == "unack"@ || s == "unacked"@ {
            Some(AckFilter::Unacked)
        } else if s == "all"@ {
            Some(AckFilter::All)
        } else {
            None
        }
    }

    /// The value of the request-level acknowledgement filter: absent for `All`.
    pub open spec fn spec_request_flag(self) -> Option<bool> {
        match self {
            AckFilter::Acked => Some(true),
            AckFilter::Unacked => Some(false),
            AckFilter::All => None,
        }
    }

    pub fn as_str(self) -> (r: &'static str)
        ensures
            r@ == self.spec_name(),
    {
        match self {
            AckFilter::Acked => "ack",
            AckFilter::Unacked => "unack",
            AckFilter::All => "all",
        }
    }

    /// Parses a filter name, ignoring ASCII case; `ack`/`acked`,
    /// `unack`/`unacked` and `all` are accepted.
    pub fn parse(s: &str) -> (r: Result<AckFilter, String>)
        ensures
            match AckFilter::spec_from_lower(ascii_lower_seq(s@)) {
                Some(f) => r == Ok::<AckFilter, String>(f),
                None => r is Err,
            },
    {
        let lower = to_ascii_lower(s);
        if text_eq(&lower, "ack") || text_eq(&lower, "acked") {
            Ok(AckFilter::Acked)
        } else if text_eq(&lower, "unack") || text_eq(&lower, "unacked") {
            Ok(AckFilter::Unacked)
        } else if text_eq(&lower, "all") {
            Ok(AckFilter::All)
        } else {
            let mut msg = String::from_str("unknown ack filter: ");
            msg.append(lower.as_str());
            Err(msg)
        }
    }

    /// The request-level acknowledgement flag for this filter.
    pub fn request_flag(self) -> (r: Option<bool>)
        ensures
            r == self.spec_request_flag(),
    {
        match self {
            AckFilter::Acked => Some(true),
            AckFilter::Unacked => Some(false),
            AckFilter::All => None,
        }
    }
}

impl std::str::FromStr for AckFilter {
    type Err = String;

    fn from_str(s: &str) -> Result<AckFilter, String> {
        AckFilter::parse(s)
    }
}

impl std::str::FromStr for Severity {
    type Err = String;

    fn from_str(s: &str) -> Result<Severity, String> {
        Severity::parse(s)
    }
}

impl Severity {
    /// The remote API's numeric code of each severity.
    pub open spec fn spec_code(self) -> i64 {
        match self {
            Severity::Info => 1,
            Severity::Warning => 2,
            Severity::Average => 3,
            Severity::High => 4,
            Severity::Disaster => 5,
        }
    }

    /// Position in the severity order, from 0 (least severe) upward.
    pub open spec fn spec_level(self) -> int {
        self.spec_code() - 1
    }

    pub fn from_zabbix(code: i64) -> (r: Option<Severity>)
        ensures
            r is Some <==> 1 <= code <= 5,
            r matches Some(s) ==> s.spec_code() == code,
    {
        match code {
            1 => Some(Severity::Info),
            2 => Some(Severity::Warning),
            3 => Some(Severity::Average),
            4 => Some(Severity::High),
            5 => Some(Severity::Disaster),
            _ => None,
        }
    }

    pub fn as_zabbix_code(self) -> (r: i64)
        ensures
            r == self.spec_code(),
            1 <= r <= 5,
    {
        match self {
            Severity::Info => 1,
            Severity::Warning => 2,
            Severity::Average => 3,
            Severity::High => 4,
            Severity::Disaster => 5,
        }
    }

    /// The severity a lower-cased name stands for, if any.
    pub open spec fn spec_from_lower(s: Seq<char>) -> Option<Severity> {
        if s == "info"@ || s == "information"@ {
            Some(Severity::Info)
        } else if s == "warn"@ || s == "warning"@ {
            Some(Severity::Warning)
        } else if s == "average"@ {
            Some(Severity::Average)
        } else if s == "high"@ {
            Some(Severity::High)
        } else if s == "disaster"@ {
            Some(Severity::Disaster)
        } else {
            None
        }
    }

    /// Parses a severity name, ignoring ASCII case; `info`/`information`,
    /// `warn`/`warning`, `average`, `high` and `disaster` are accepted.
    pub fn parse(s: &str) -> (r: Result<Severity, String>)
        ensures
            match Severity::spec_from_lower(ascii_lower_seq(s@)) {
                Some(v) => r == Ok::<Severity, String>(v),
                None => r is Err,
            },
    {
        let lower = to_ascii_lower(s);
        if text_eq(&lower, "info") || text_eq(&lower, "information") {
            Ok(Severity::Info)
        } else if text_eq(&lower, "warn") || text_eq(&lower, "warning") {
            Ok(Severity::Warning)
        } else if text_eq(&lower, "average") {
            Ok(Severity::Average)
        } else if text_eq(&lower, "high") {
            Ok(Severity::High)
        } else if text_eq(&lower, "disaster") {
            Ok(Severity::Disaster)
        } else {
            let mut msg = String::from_str("unknown severity: ");
            msg.append(lower.as_str());
            Err(msg)
        }
    }

    /// Whether `self` is strictly more severe than `other`.
    pub fn is_above(self, other: Severity) -> (r: bool)
        ensures
            r == (self.spec_level() > other.spec_level()),
    {
        self.as_zabbix_code() > other.as_zabbix_code()
    }

    /// The display name of each severity.
    pub open spec fn spec_name(self) -> Seq<char> {
        match self {
            Severity::Info => "Info"@,
            Severity::Warning => "Warning"@,
            Severity::Average => "Average"@,
            Severity::High => "High"@,
            Severity::Disaster => "Disaster"@,
        }
    }

    pub fn as_str(self) -> (r: &'static str)
        ensures
            r@ == self.spec_name(),
    {
        match self {
            Severity::Info => "Info",
            Severity::Warning => "Warning",
            Severity::Average => "Average",
            Severity::High => "High",
            Severity::Disaster => "Disaster",
        }
    }
}

} // verus!
