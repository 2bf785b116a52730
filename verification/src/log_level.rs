//! Verbosity of the proxy's log output.

use vstd::prelude::*;

verus! {

/// The configured verbosity. `Off`, written `none` in a configuration, switches logging off.
#[derive(Debug, Clone, Copy, PartialEq, Eq, Structural)]
pub enum LogLevel {
    Off,
    Debug,
    Error,
    Info,
    Trace,
}

/// The severity threshold handed to the log sink.
#[derive(Debug, Clone, Copy, PartialEq, Eq, Structural)]
pub enum TraceLevel {
    Error,
    Warn,
    Info,
    Debug,
    Trace,
}

/// The lower-case form of a text, as `str::to_lowercase` computes it.
pub uninterp spec fn lowercase_of(text: Seq<char>) -> Seq<char>;

/// `str::to_lowercase` of the standard library: the result is the lower-case
/// form of the argument and depends on nothing else.
#[verifier::external_body]
fn to_lowercase(text: &str) -> (lowered: String)
    ensures
        lowered@ == lowercase_of(text@),
{
    text.to_lowercase()
}

/// The level that a lower-case name stands for, if any.
pub open spec fn level_named(name: Seq<char>) -> Option<LogLevel> {
    if name == "none"@ {
        Some(LogLevel::Off)
    } else if name == "debug"@ {
        Some(LogLevel::Debug)
    } else if name == "error"@ {
        Some(LogLevel::Error)
    } else if name == "info"@ {
        Some(LogLevel::Info)
    } else if name == "trace"@ {
        Some(LogLevel::Trace)
    } else {
        None
    }
}

/// Compares two texts.
fn same_text(a: &str, b: &str) -> (same: bool)
    ensures
        same == (a@ == b@),
{
    let left: String = a.to_owned();
    let right: String = b.to_owned();
    left == right
}

impl LogLevel {
    /// The configuration name of this level.
    pub open spec fn name(self) -> Seq<char> {
        match self {
            LogLevel::Off => "none"@,
            LogLevel::Debug => "debug"@,
            LogLevel::Error => "error"@,
            LogLevel::Info => "info"@,
            LogLevel::Trace => "trace"@,
        }
    }

    /// The threshold of this level; with logging off it is `Debug`, which
    /// nothing then reads.
    pub open spec fn threshold(self) -> TraceLevel {
        match self {
            LogLevel::Off => TraceLevel::Debug,
            LogLevel::Debug => TraceLevel::Debug,
            LogLevel::Error => TraceLevel::Error,
            LogLevel::Info => TraceLevel::Info,
            LogLevel::Trace => TraceLevel::Trace,
        }
    }

    /// Reads a level from a name that is already in lower case.
    pub fn from_lowercase(name: &str) -> (r: Result<LogLevel, &'static str>)
        ensures
            match level_named(name@) {
                Some(level) => r == Ok::<LogLevel, &'static str>(level),
                None => r matches Err(reason) && reason@ == "Invalid log level"@,
            },
    {
        if same_text(name, "none") {
            Ok(LogLevel::Off)
        } else if same_text(name, "debug") {
            Ok(LogLevel::Debug)
        } else if same_text(name, "error") {
            Ok(LogLevel::Error)
        } else if same_text(name, "info") {
            Ok(LogLevel::Info)
        } else if same_text(name, "trace") {
            Ok(LogLevel::Trace)
        } else {
            Err("Invalid log level")
        }
    }

    /// Reads a level from its name, in any mix of upper and lower case.
    pub fn from_str(s: &str) -> (r: Result<LogLevel, &'static str>)
        ensures
            match level_named(lowercase_of(s@)) {
                Some(level) => r == Ok::<LogLevel, &'static str>(level),
                None => r matches Err(reason) && reason@ == "Invalid log level"@,
            },
    {
        let lowered: String = to_lowercase(s);
        LogLevel::from_lowercase(lowered.as_str())
    }

    /// The threshold to configure the log sink with.
    pub fn to_tracing_level(&self) -> (level: TraceLevel)
        ensures
            level == self.threshold(),
    {
        match self {
            LogLevel::Off => TraceLevel::Debug,
            LogLevel::Debug => TraceLevel::Debug,
            LogLevel::Error => TraceLevel::Error,
            LogLevel::Info => TraceLevel::Info,
            LogLevel::Trace => TraceLevel::Trace,
        }
    }

    /// The configuration name of this level, as a string.
    pub fn to_string(&self) -> (text: String)
        ensures
            text@ == self.name(),
    {
        match self {
            LogLevel::Off => "none".to_owned(),
            LogLevel::Debug => "debug".to_owned(),
            LogLevel::Error => "error".to_owned(),
            LogLevel::Info => "info".to_owned(),
            LogLevel::Trace => "trace".to_owned(),
        }
    }
}

/// Law of names: every level is read back from its own name.
pub proof fn lemma_name_round_trip(level: LogLevel)
    ensures
        level_named(level.name()) == Some(level),
{
    reveal_strlit("none");
    reveal_strlit("debug");
    reveal_strlit("error");
    reveal_strlit("info");
    reveal_strlit("trace");
    if level.name() == "none"@ {
        assert(level.name().len() == 4);
        assert(level.name()[0] == 'n');
    }
    if level.name() == "debug"@ {
        assert(level.name()[0] == 'd');
    }
    if level.name() == "error"@ {
        assert(level.name()[0] == 'e');
    }
    if level.name() == "info"@ {
        assert(level.name()[0] == 'i');
    }
}

} // verus!
