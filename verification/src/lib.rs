//! Transcodes one raw SYSLOG record into one CLEF (Compact Log Event Format)
//! event: the record is parsed into a structured message (priority, header
//! fields, structured-data elements, free-text body), and the message is
//! mapped into a CLEF document under a fixed field-precedence policy.

use vstd::prelude::*;

pub mod clef;
pub mod clock;
pub mod fields;
pub mod json;
pub mod parsers;
pub mod priority;
pub mod syslog;

verus! {

/// Configuration for CLEF formatting.
#[derive(Debug, Clone)]
pub struct Config {}

impl Default for Config {
    fn default() -> (r: Self)
        ensures
            r == (Config {}),
    {
        Config {}
    }
}

/// A CLEF processor: a stateless, per-message transcoder.
#[derive(Clone)]
pub struct Data {}

/// Build a CLEF processor to handle messages.
pub fn build(config: Config) -> (r: Data)
    ensures
        r == (Data {}),
{
    Data::new(config)
}

impl Data {
    pub fn new(_config: Config) -> (r: Self)
        ensures
            r == (Data {}),
    {
        Data {}
    }

    /// Transcodes the text of one SYSLOG record into one CLEF event: the
    /// record is parsed into a structured message, and the message is
    /// mapped into the event. Total: every record yields an event.
    pub fn transcode(&self, record: &str) -> (r: clef::Message)
        ensures
            exists|m: syslog::Message|
                #[trigger] syslog::parses_to(record@, m) && m.wf() && clef::maps_to(m, r),
            r.level@ == crate::priority::severity_name(
                crate::parsers::spec_parse_priority(record@).0.severity as int,
            ),
            r.timestamp@.len() > 0,
    {
        let msg = syslog::Message::from_text(record);
        let ghost m0 = msg;
        let out = msg.into_clef();
        proof {
            assert(syslog::parses_to(record@, m0) && m0.wf() && clef::maps_to(m0, out));
        }
        out
    }
}

} // verus!
