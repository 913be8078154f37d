use vstd::prelude::*;
use crate::ccxml::str_equals;

verus! {

/// Verbosity levels understood by the debug server's trace facility.
#[derive(Copy, Clone, Debug, PartialEq, Eq, Structural)]
pub enum TraceLevel {
    Off,
    Severe,
    Warning,
    Info,
    Config,
    Fine,
    Finer,
    Finest,
    All,
}

/// The name under which the debug server knows each level.
pub open spec fn trace_level_name(level: TraceLevel) -> Seq<char> {
    match level {
        TraceLevel::Off => "OFF"@,
        TraceLevel::Severe => "SEVERE"@,
        TraceLevel::Warning => "WARNING"@,
        TraceLevel::Info => "INFO"@,
        TraceLevel::Config => "CONFIG"@,
        TraceLevel::Fine => "FINE"@,
        TraceLevel::Finer => "FINER"@,
        TraceLevel::Finest => "FINEST"@,
        TraceLevel::All => "ALL"@,
    }
}

/// The message with which a string that names no level is refused.
pub open spec fn invalid_trace_level_message(s: Seq<char>) -> Seq<char> {
    "Invalid TraceLevel string "@ + s
}

/// Whether `s` is the name of some level.
pub open spec fn is_trace_level_name(s: Seq<char>) -> bool {
    exists|level: TraceLevel| trace_level_name(level) == s
}

/// No two levels share a name, and every level's name parses: reading back
/// the name of a level gives that level again.
pub proof fn lemma_trace_level_names_distinct(a: TraceLevel, b: TraceLevel)
    ensures
        trace_level_name(a) == trace_level_name(b) ==> a == b,
        is_trace_level_name(trace_level_name(a)),
{
    reveal_strlit("OFF");
    reveal_strlit("SEVERE");
    reveal_strlit("WARNING");
    reveal_strlit("INFO");
    reveal_strlit("CONFIG");
    reveal_strlit("FINE");
    reveal_strlit("FINER");
    reveal_strlit("FINEST");
    reveal_strlit("ALL");
    if trace_level_name(a) == trace_level_name(b) {
        assert(trace_level_name(a).len() == trace_level_name(b).len());
        if a != b {
            assert(trace_level_name(a)[0] != trace_level_name(b)[0]
                || trace_level_name(a)[1] != trace_level_name(b)[1]
                || trace_level_name(a)[trace_level_name(a).len() - 1]
                    != trace_level_name(b)[trace_level_name(b).len() - 1]);
        }
    }
}

impl TraceLevel {
    /// The level's name, as the debug server expects it.
    pub fn to_string(&self) -> (res: String)
        ensures
            res@ == trace_level_name(*self),
    {
        let name = match self {
            TraceLevel::Off => "OFF",
            TraceLevel::Severe => "SEVERE",
            TraceLevel::Warning => "WARNING",
            TraceLevel::Info => "INFO",
            TraceLevel::Config => "CONFIG",
            TraceLevel::Fine => "FINE",
            TraceLevel::Finer => "FINER",
            TraceLevel::Finest => "FINEST",
            TraceLevel::All => "ALL",
        };
        name.to_owned()
    }

    /// Parses a level from its exact (upper-case) name.
    pub fn from_str(s: &str) -> (res: Result<TraceLevel, String>)
        ensures
            match res {
                Ok(level) => trace_level_name(level) == s@,
                Err(msg) => !is_trace_level_name(s@) && msg@ == invalid_trace_level_message(s@),
            },
    {
        if str_equals(s, "OFF") {
            Ok(TraceLevel::Off)
        } else if str_equals(s, "SEVERE") {
            Ok(TraceLevel::Severe)
        } else if str_equals(s, "WARNING") {
            Ok(TraceLevel::Warning)
        } else if str_equals(s, "INFO") {
            Ok(TraceLevel::Info)
        } else if str_equals(s, "CONFIG") {
            Ok(TraceLevel::Config)
        } else if str_equals(s, "FINE") {
            Ok(TraceLevel::Fine)
        } else if str_equals(s, "FINER") {
            Ok(TraceLevel::Finer)
        } else if str_equals(s, "FINEST") {
            Ok(TraceLevel::Finest)
        } else if str_equals(s, "ALL") {
            Ok(TraceLevel::All)
        } else {
            proof {
                assert forall|level: TraceLevel| trace_level_name(level) != s@ by {
                    match level {
                        TraceLevel::Off => {},
                        TraceLevel::Severe => {},
                        TraceLevel::Warning => {},
                        TraceLevel::Info => {},
                        TraceLevel::Config => {},
                        TraceLevel::Fine => {},
                        TraceLevel::Finer => {},
                        TraceLevel::Finest => {},
                        TraceLevel::All => {},
                    }
                }
            }
            let mut msg = "Invalid TraceLevel string ".to_owned();
            msg.append(s);
            Err(msg)
        }
    }
}

impl std::str::FromStr for TraceLevel {
    type Err = String;

    fn from_str(s: &str) -> (res: Result<TraceLevel, String>)
        ensures
            match res {
                Ok(level) => trace_level_name(level) == s@,
                Err(msg) => !is_trace_level_name(s@) && msg@ == invalid_trace_level_message(s@),
            },
    {
        TraceLevel::from_str(s)
    }
}

} // verus!
