//! Log priorities, as the ECAppLog server understands them.

use std::borrow::Cow;
use std::str::FromStr;

use vstd::prelude::*;

use crate::text::same_text;

verus! {

/// The priority of a log entry.
///
/// Priorities travel as case-sensitive strings, not numbers, and the server compares them
/// literally. Note that the informational level is spelled `INFORMATION`, not `INFO`.
///
/// The variant order is deliberately *not* a severity ordering, and this type intentionally does
/// not implement `Ord`, because the protocol defines no ranking. Use [`Priority::is_error`] and
/// [`Priority::is_error_or_warning`] to reason about severity the way the server does.
#[derive(Debug, PartialEq, Eq, Hash)]
pub enum Priority {
    /// `TRACE`
    Trace,
    /// `DEBUG`
    Debug,
    /// `INFORMATION` -- note the spelling.
    Information,
    /// `NOTICE`
    Notice,
    /// `WARNING`
    Warning,
    /// `FATAL`
    Fatal,
    /// `CRITICAL`
    Critical,
    /// `ERROR`
    Error,
    /// Any other string.
    ///
    /// The server accepts arbitrary priorities without complaint, but they get no colour of their
    /// own in the GUI and are not copied into the synthetic `ERROR` tab. Prefer the named variants
    /// unless you are forwarding levels from a system that has its own vocabulary.
    Custom(Cow<'static, str>),
}

/// Text with the ASCII letters in upper case and every other character as it was.
pub open spec fn ascii_upper(text: Seq<char>) -> Seq<char> {
    text.map_values(
        |c: char|
            if 'a' <= c && c <= 'z' {
                (c as u32 - 32) as char
            } else {
                c
            },
    )
}

/// `str::to_ascii_uppercase`: maps the letters `a` to `z` to `A` to `Z` and leaves every other
/// character unchanged.
pub assume_specification[ str::to_ascii_uppercase ](text: &str) -> (upper: String)
    ensures
        upper@ == ascii_upper(text@),
;

/// The priority that the protocol names `name`, letter for letter.
pub open spec fn named(name: Seq<char>) -> Option<Priority> {
    if name == "TRACE"@ {
        Some(Priority::Trace)
    } else if name == "DEBUG"@ {
        Some(Priority::Debug)
    } else if name == "INFORMATION"@ {
        Some(Priority::Information)
    } else if name == "NOTICE"@ {
        Some(Priority::Notice)
    } else if name == "WARNING"@ {
        Some(Priority::Warning)
    } else if name == "FATAL"@ {
        Some(Priority::Fatal)
    } else if name == "CRITICAL"@ {
        Some(Priority::Critical)
    } else if name == "ERROR"@ {
        Some(Priority::Error)
    } else {
        None
    }
}

/// Whether a text reads as a priority: as the one it names, whatever the case of its letters, and
/// otherwise as a custom one that is sent letter for letter.
pub open spec fn reads_as(text: Seq<char>, priority: Priority) -> bool {
    match named(ascii_upper(text)) {
        Some(standard) => priority == standard,
        None => priority is Custom && priority.name() == text,
    }
}

impl Priority {
    /// Every priority the protocol names, in declaration order.
    pub const ALL: [Priority; 8] = [
        Priority::Trace,
        Priority::Debug,
        Priority::Information,
        Priority::Notice,
        Priority::Warning,
        Priority::Fatal,
        Priority::Critical,
        Priority::Error,
    ];

    /// The text that stands for this priority on the wire.
    pub open spec fn name(self) -> Seq<char> {
        match self {
            Priority::Trace => "TRACE"@,
            Priority::Debug => "DEBUG"@,
            Priority::Information => "INFORMATION"@,
            Priority::Notice => "NOTICE"@,
            Priority::Warning => "WARNING"@,
            Priority::Fatal => "FATAL"@,
            Priority::Critical => "CRITICAL"@,
            Priority::Error => "ERROR"@,
            Priority::Custom(name) => name@,
        }
    }

    /// Whether the server counts this priority among the errors.
    pub open spec fn error_class(self) -> bool {
        self is Fatal || self is Critical || self is Error
    }

    /// The exact string sent on the wire.
    pub fn as_str(&self) -> (name: &str)
        ensures
            name@ == self.name(),
    {
        match self {
            Self::Trace => "TRACE",
            Self::Debug => "DEBUG",
            Self::Information => "INFORMATION",
            Self::Notice => "NOTICE",
            Self::Warning => "WARNING",
            Self::Fatal => "FATAL",
            Self::Critical => "CRITICAL",
            Self::Error => "ERROR",
            Self::Custom(Cow::Borrowed(name)) => name,
            Self::Custom(Cow::Owned(name)) => name.as_str(),
        }
    }

    /// Whether the server classifies this priority as an error.
    ///
    /// Callers can predict with it which entries the GUI copies into its `ERROR` tab.
    pub fn is_error(&self) -> (error: bool)
        ensures
            error == self.error_class(),
    {
        matches!(self, Self::Fatal | Self::Critical | Self::Error)
    }

    /// Whether the server classifies this priority as an error or a warning.
    ///
    /// These are exactly the entries that reach the `ERROR` tab; a [`Priority::Custom`] value
    /// never does, whatever it spells.
    pub fn is_error_or_warning(&self) -> (error_or_warning: bool)
        ensures
            error_or_warning == (self.error_class() || self is Warning),
    {
        self.is_error() || matches!(self, Self::Warning)
    }

    /// The wire name as an owned string.
    pub fn to_string(&self) -> (name: String)
        ensures
            name@ == self.name(),
    {
        self.as_str().to_owned()
    }

    /// Reads one of the eight protocol names, falling back to [`Priority::Custom`].
    ///
    /// Matching is case-insensitive on the way in as a convenience, but note the server itself is
    /// case-sensitive: a `Custom("warn")` is not a `WARNING` as far as the GUI is concerned.
    pub fn from_name(text: &str) -> (priority: Priority)
        ensures
            reads_as(text@, priority),
    {
        let upper = text.to_ascii_uppercase();
        let name: &str = upper.as_str();
        if same_text(name, "TRACE") {
            Self::Trace
        } else if same_text(name, "DEBUG") {
            Self::Debug
        } else if same_text(name, "INFORMATION") {
            Self::Information
        } else if same_text(name, "NOTICE") {
            Self::Notice
        } else if same_text(name, "WARNING") {
            Self::Warning
        } else if same_text(name, "FATAL") {
            Self::Fatal
        } else if same_text(name, "CRITICAL") {
            Self::Critical
        } else if same_text(name, "ERROR") {
            Self::Error
        } else {
            Self::Custom(Cow::Owned(text.to_owned()))
        }
    }
}

impl Clone for Priority {
    fn clone(&self) -> (copy: Self)
        ensures
            copy == *self,
    {
        match self {
            Self::Trace => Self::Trace,
            Self::Debug => Self::Debug,
            Self::Information => Self::Information,
            Self::Notice => Self::Notice,
            Self::Warning => Self::Warning,
            Self::Fatal => Self::Fatal,
            Self::Critical => Self::Critical,
            Self::Error => Self::Error,
            Self::Custom(Cow::Borrowed(name)) => Self::Custom(Cow::Borrowed(name)),
            Self::Custom(Cow::Owned(name)) => Self::Custom(Cow::Owned(name.clone())),
        }
    }
}

impl FromStr for Priority {
    type Err = std::convert::Infallible;

    /// Reads a priority as [`Priority::from_name`] does. It never fails.
    fn from_str(text: &str) -> (priority: Result<Self, Self::Err>)
        ensures
            priority is Ok,
            reads_as(text@, priority->Ok_0),
    {
        Ok(Self::from_name(text))
    }
}

proof fn lemma_names()
    ensures
        "TRACE"@ =~= seq!['T', 'R', 'A', 'C', 'E'],
        "DEBUG"@ =~= seq!['D', 'E', 'B', 'U', 'G'],
        "INFORMATION"@ =~= seq!['I', 'N', 'F', 'O', 'R', 'M', 'A', 'T', 'I', 'O', 'N'],
        "NOTICE"@ =~= seq!['N', 'O', 'T', 'I', 'C', 'E'],
        "WARNING"@ =~= seq!['W', 'A', 'R', 'N', 'I', 'N', 'G'],
        "FATAL"@ =~= seq!['F', 'A', 'T', 'A', 'L'],
        "CRITICAL"@ =~= seq!['C', 'R', 'I', 'T', 'I', 'C', 'A', 'L'],
        "ERROR"@ =~= seq!['E', 'R', 'R', 'O', 'R'],
{
    reveal_strlit("TRACE");
    reveal_strlit("DEBUG");
    reveal_strlit("INFORMATION");
    reveal_strlit("NOTICE");
    reveal_strlit("WARNING");
    reveal_strlit("FATAL");
    reveal_strlit("CRITICAL");
    reveal_strlit("ERROR");
}

/// Every named priority reads back from its own wire name, and the wire names differ from one
/// another.
pub proof fn lemma_named_priorities_round_trip(priority: Priority)
    requires
        !(priority is Custom),
    ensures
        named(ascii_upper(priority.name())) == Some(priority),
        named(priority.name()) == Some(priority),
{
    lemma_names();
    assert(ascii_upper(priority.name()) =~= priority.name());
    assert("TRACE"@[0] == 'T' && "DEBUG"@[0] == 'D' && "FATAL"@[0] == 'F' && "ERROR"@[0] == 'E');
    assert("INFORMATION"@.len() == 11 && "NOTICE"@.len() == 6 && "WARNING"@.len() == 7
        && "CRITICAL"@.len() == 8 && "TRACE"@.len() == 5 && "DEBUG"@.len() == 5 && "FATAL"@.len()
        == 5 && "ERROR"@.len() == 5);
}

/// Reading does not depend on the case of ASCII letters: texts that agree in upper case read as the
/// same named priority, or both as custom ones.
pub proof fn lemma_case_does_not_matter(a: Seq<char>, b: Seq<char>, p: Priority, q: Priority)
    requires
        ascii_upper(a) == ascii_upper(b),
        reads_as(a, p),
        reads_as(b, q),
    ensures
        (p is Custom) == (q is Custom),
        !(p is Custom) ==> p == q,
{
    lemma_named_is_not_custom(ascii_upper(a));
}

/// The protocol names no custom priority.
proof fn lemma_named_is_not_custom(name: Seq<char>)
    ensures
        named(name) matches Some(priority) ==> !(priority is Custom),
{
}

/// The names on the wire are those that the server knows, and a custom priority is sent as it is.
pub proof fn lemma_wire_names_are_the_servers(priority: &Priority, name: &str)
    requires
        call_ensures(Priority::as_str, (priority,), name),
    ensures
        match *priority {
            Priority::Trace => name@ == "TRACE"@,
            Priority::Debug => name@ == "DEBUG"@,
            Priority::Information => name@ == "INFORMATION"@,
            Priority::Notice => name@ == "NOTICE"@,
            Priority::Warning => name@ == "WARNING"@,
            Priority::Fatal => name@ == "FATAL"@,
            Priority::Critical => name@ == "CRITICAL"@,
            Priority::Error => name@ == "ERROR"@,
            Priority::Custom(custom) => name@ == custom@,
        },
        name@ == priority.name(),
{
}

/// Errors are the errors, the critical and the fatal ones; with the warnings they are what reaches
/// the `ERROR` tab. A custom priority never does, whatever it spells.
pub proof fn lemma_severity_is_the_servers(priority: &Priority, error: bool, shown: bool)
    requires
        call_ensures(Priority::is_error, (priority,), error),
        call_ensures(Priority::is_error_or_warning, (priority,), shown),
    ensures
        match *priority {
            Priority::Fatal => error && shown,
            Priority::Critical => error && shown,
            Priority::Error => error && shown,
            Priority::Warning => !error && shown,
            _ => !error && !shown,
        },
{
}

/// A text reads as the priority whose name it is but for the case of its letters, and as a custom
/// one that keeps it letter for letter if there is none.
pub proof fn lemma_reading_keeps_the_text(text: Seq<char>, priority: Priority)
    requires
        reads_as(text, priority),
    ensures
        priority is Custom ==> priority.name() == text,
        !(priority is Custom) ==> priority.name() == ascii_upper(text),
        ascii_upper(text) == "TRACE"@ || ascii_upper(text) == "DEBUG"@ || ascii_upper(text)
            == "INFORMATION"@ || ascii_upper(text) == "NOTICE"@ || ascii_upper(text) == "WARNING"@
            || ascii_upper(text) == "FATAL"@ || ascii_upper(text) == "CRITICAL"@ || ascii_upper(
            text,
        ) == "ERROR"@ <==> !(priority is Custom),
{
}

/// What is read from a name is what that name reads as.
pub proof fn lemma_names_are_read(text: &str, priority: Priority)
    requires
        call_ensures(Priority::from_name, (text,), priority),
    ensures
        priority is Custom ==> priority.name() == text@,
        !(priority is Custom) ==> priority.name() == ascii_upper(text@),
        priority.name() == "INFO"@ ==> priority is Custom,
{
    lemma_reading_keeps_the_text(text@, priority);
    lemma_names();
    reveal_strlit("INFO");
    assert("INFO"@.len() == 4);
    assert("TRACE"@.len() == 5 && "DEBUG"@.len() == 5 && "INFORMATION"@.len() == 11
        && "NOTICE"@.len() == 6 && "WARNING"@.len() == 7 && "FATAL"@.len() == 5 && "CRITICAL"@.len()
        == 8 && "ERROR"@.len() == 5);
}

/// A copy of a priority is that priority, and shown it is its name on the wire.
pub proof fn lemma_copied_priorities_are_the_same(
    priority: &Priority,
    copy: Priority,
    shown: String,
)
    requires
        call_ensures(<Priority as Clone>::clone, (priority,), copy),
        call_ensures(Priority::to_string, (priority,), shown),
    ensures
        copy == *priority,
        shown@ == priority.name(),
{
}

}
