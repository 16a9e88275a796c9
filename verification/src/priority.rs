//! The priority decoder: a SYSLOG priority code 0..=191 encodes a facility
//! (code / 8, one of 24 subsystem categories) and a severity (code % 8, one
//! of 8 urgency levels). Both map to canonical lowercase names through fixed
//! lookup tables. Decoding is total over the legal domain and never fails;
//! out-of-range codes are a concern of the message parser, not of this module.

use vstd::prelude::*;

verus! {

/// A decoded priority: the facility and severity sub-values of the code.
#[derive(Debug, Clone, Copy, PartialEq, Eq, Structural)]
pub struct Priority {
    pub facility: u8,
    pub severity: u8,
}

/// The canonical lowercase name of facility `f`, for `0 <= f <= 23`.
pub open spec fn facility_name(f: int) -> Seq<char> {
    if f == 0 {
        "kernel"@
    } else if f == 1 {
        "user"@
    } else if f == 2 {
        "mail"@
    } else if f == 3 {
        "daemon"@
    } else if f == 4 {
        "auth"@
    } else if f == 5 {
        "syslog"@
    } else if f == 6 {
        "lpr"@
    } else if f == 7 {
        "news"@
    } else if f == 8 {
        "uucp"@
    } else if f == 9 {
        "cron"@
    } else if f == 10 {
        "authpriv"@
    } else if f == 11 {
        "ftp"@
    } else if f == 12 {
        "ntp"@
    } else if f == 13 {
        "security"@
    } else if f == 14 {
        "console"@
    } else if f == 15 {
        "clock"@
    } else if f == 16 {
        "local0"@
    } else if f == 17 {
        "local1"@
    } else if f == 18 {
        "local2"@
    } else if f == 19 {
        "local3"@
    } else if f == 20 {
        "local4"@
    } else if f == 21 {
        "local5"@
    } else if f == 22 {
        "local6"@
    } else {
        "local7"@
    }
}

/// The canonical lowercase name of severity `s`, for `0 <= s <= 7`.
pub open spec fn severity_name(s: int) -> Seq<char> {
    if s == 0 {
        "emergency"@
    } else if s == 1 {
        "alert"@
    } else if s == 2 {
        "critical"@
    } else if s == 3 {
        "error"@
    } else if s == 4 {
        "warning"@
    } else if s == 5 {
        "notice"@
    } else if s == 6 {
        "info"@
    } else {
        "debug"@
    }
}

/// The priority that code `code` decodes to.
pub open spec fn spec_decode(code: u8) -> Priority {
    Priority { facility: code / 8, severity: code % 8 }
}

impl Priority {
    /// Decode a priority code into its facility and severity sub-values.
    pub fn from_code(code: u8) -> (r: Priority)
        requires
            code < 192,
        ensures
            r == spec_decode(code),
            r.facility < 24,
            r.severity < 8,
    {
        Priority { facility: code / 8, severity: code % 8 }
    }

    /// The canonical lowercase name of this priority's facility.
    pub fn facility(&self) -> (r: &'static str)
        requires
            self.facility < 24,
        ensures
            r@ == facility_name(self.facility as int),
    {
        match self.facility {
            0 => "kernel",
            1 => "user",
            2 => "mail",
            3 => "daemon",
            4 => "auth",
            5 => "syslog",
            6 => "lpr",
            7 => "news",
            8 => "uucp",
            9 => "cron",
            10 => "authpriv",
            11 => "ftp",
            12 => "ntp",
            13 => "security",
            14 => "console",
            15 => "clock",
            16 => "local0",
            17 => "local1",
            18 => "local2",
            19 => "local3",
            20 => "local4",
            21 => "local5",
            22 => "local6",
            _ => "local7",
        }
    }

    /// The canonical lowercase name of this priority's severity.
    pub fn severity(&self) -> (r: &'static str)
        requires
            self.severity < 8,
        ensures
            r@ == severity_name(self.severity as int),
    {
        match self.severity {
            0 => "emergency",
            1 => "alert",
            2 => "critical",
            3 => "error",
            4 => "warning",
            5 => "notice",
            6 => "info",
            _ => "debug",
        }
    }
}

/// Decoding is total over the legal domain: every code 0..=191 yields a
/// facility and a severity that fall inside the fixed enumeration tables,
/// and both tables give each of them a non-empty canonical name.
pub proof fn lemma_priority_decode_total(code: u8)
    requires
        code < 192,
    ensures
        spec_decode(code).facility < 24,
        spec_decode(code).severity < 8,
        facility_name(spec_decode(code).facility as int).len() > 0,
        severity_name(spec_decode(code).severity as int).len() > 0,
{
    reveal_strlit("kernel");
    reveal_strlit("user");
    reveal_strlit("mail");
    reveal_strlit("daemon");
    reveal_strlit("auth");
    reveal_strlit("syslog");
    reveal_strlit("lpr");
    reveal_strlit("news");
    reveal_strlit("uucp");
    reveal_strlit("cron");
    reveal_strlit("authpriv");
    reveal_strlit("ftp");
    reveal_strlit("ntp");
    reveal_strlit("security");
    reveal_strlit("console");
    reveal_strlit("clock");
    reveal_strlit("local0");
    reveal_strlit("local1");
    reveal_strlit("local2");
    reveal_strlit("local3");
    reveal_strlit("local4");
    reveal_strlit("local5");
    reveal_strlit("local6");
    reveal_strlit("local7");
    reveal_strlit("emergency");
    reveal_strlit("alert");
    reveal_strlit("critical");
    reveal_strlit("error");
    reveal_strlit("warning");
    reveal_strlit("notice");
    reveal_strlit("info");
    reveal_strlit("debug");
}

} // verus!
