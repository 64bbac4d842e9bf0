//! Input-source matching for the monitor side channel.
//!
//! Input sources travel as the integer codes the control channel uses; a
//! profile either accepts any source or demands one exact code.

use vstd::prelude::*;

verus! {

/// What a profile expects of a monitor's active video input: anything, or
/// one specific input-source code.
#[derive(Clone, Copy, Debug, PartialEq, Eq, Structural)]
pub enum MonitorInputSourceMatcher {
    Any,
    Input(u32),
}

impl MonitorInputSourceMatcher {
    /// `Any` accepts every reading; `Input(c)` accepts exactly `c`.
    pub open spec fn matches_spec(self, input: u32) -> bool {
        match self {
            MonitorInputSourceMatcher::Any => true,
            MonitorInputSourceMatcher::Input(code) => code == input,
        }
    }

    pub fn matches(&self, input: u32) -> (r: bool)
        ensures
            r == self.matches_spec(input),
    {
        match self {
            MonitorInputSourceMatcher::Any => true,
            MonitorInputSourceMatcher::Input(code) => *code == input,
        }
    }

    /// Whether this matcher constrains the input at all; specific matchers
    /// raise a profile's weight.
    pub open spec fn is_specific_spec(self) -> bool {
        !(self is Any)
    }

    pub fn is_specific(&self) -> (r: bool)
        ensures
            r == self.is_specific_spec(),
    {
        match self {
            MonitorInputSourceMatcher::Any => false,
            MonitorInputSourceMatcher::Input(_) => true,
        }
    }
}

impl Default for MonitorInputSourceMatcher {
    /// An absent matcher in a profile defaults to accepting any input.
    fn default() -> (r: Self)
        ensures
            r == MonitorInputSourceMatcher::Any,
    {
        MonitorInputSourceMatcher::Any
    }
}

/// One scalar read from a profile catalog where a matcher is expected.
/// A textual scalar carries the input-source code its name resolved to,
/// when the name is known to the side-channel library.
#[derive(Clone, Debug)]
pub enum MatcherScalar {
    UnsignedNumber(u64),
    SignedNumber(i64),
    RealNumber,
    Text { text: String, resolved: Option<u32> },
    Null,
    Other,
}

/// Why a catalog scalar is not a valid matcher.
#[derive(Clone, Copy, Debug, PartialEq, Eq, Structural)]
pub enum MatcherParseError {
    /// A number above the one-byte range of input-source codes.
    CodeOutOfRange,
    /// A signed or floating-point number, or a non-scalar value.
    WrongType,
    /// A name that resolves to no known input source.
    UnknownName,
}

/// Turn a catalog scalar into a matcher: an unsigned number up to 255 is an
/// exact code, the text `Any` or a null accepts everything, any other text
/// stands for the input source it resolved to, and everything else is
/// rejected.
pub fn matcher_from_scalar(v: &MatcherScalar) -> (r: Result<
    MonitorInputSourceMatcher,
    MatcherParseError,
>)
    ensures
        match *v {
            MatcherScalar::UnsignedNumber(n) => if n <= 255 {
                r == Ok::<_, MatcherParseError>(MonitorInputSourceMatcher::Input(n as u32))
            } else {
                r == Err::<MonitorInputSourceMatcher, _>(MatcherParseError::CodeOutOfRange)
            },
            MatcherScalar::SignedNumber(_) => r == Err::<MonitorInputSourceMatcher, _>(
                MatcherParseError::WrongType,
            ),
            MatcherScalar::RealNumber => r == Err::<MonitorInputSourceMatcher, _>(
                MatcherParseError::WrongType,
            ),
            MatcherScalar::Text { text, resolved } => if text@ == "Any"@ {
                r == Ok::<_, MatcherParseError>(MonitorInputSourceMatcher::Any)
            } else {
                match resolved {
                    Some(code) => r == Ok::<_, MatcherParseError>(
                        MonitorInputSourceMatcher::Input(code),
                    ),
                    None => r == Err::<MonitorInputSourceMatcher, _>(
                        MatcherParseError::UnknownName,
                    ),
                }
            },
            MatcherScalar::Null => r == Ok::<_, MatcherParseError>(MonitorInputSourceMatcher::Any),
            MatcherScalar::Other => r == Err::<MonitorInputSourceMatcher, _>(
                MatcherParseError::WrongType,
            ),
        },
{
    match v {
        MatcherScalar::UnsignedNumber(n) => {
            if *n <= 255 {
                Ok(MonitorInputSourceMatcher::Input(*n as u32))
            } else {
                Err(MatcherParseError::CodeOutOfRange)
            }
        },
        MatcherScalar::SignedNumber(_) => Err(MatcherParseError::WrongType),
        MatcherScalar::RealNumber => Err(MatcherParseError::WrongType),
        MatcherScalar::Text { text, resolved } => {
            let any = String::from_str("Any");
            if *text == any {
                Ok(MonitorInputSourceMatcher::Any)
            } else {
                match resolved {
                    Some(code) => Ok(MonitorInputSourceMatcher::Input(*code)),
                    None => Err(MatcherParseError::UnknownName),
                }
            }
        },
        MatcherScalar::Null => Ok(MonitorInputSourceMatcher::Any),
        MatcherScalar::Other => Err(MatcherParseError::WrongType),
    }
}

/// Live input readings gathered from the side channel, one per monitor
/// name. The control loop treats a missing reading as accepting.
#[derive(Clone, Debug)]
pub struct InputReadings {
    pub entries: Vec<(String, u32)>,
}

/// First reading recorded for `name`, if any.
pub open spec fn reading_index_from(entries: Seq<(String, u32)>, name: Seq<char>, i: int) -> int
    decreases entries.len() - i,
{
    if i < 0 || i >= entries.len() {
        -1
    } else if entries[i].0@ == name {
        i
    } else {
        reading_index_from(entries, name, i + 1)
    }
}

impl InputReadings {
    pub open spec fn spec_get(self, name: Seq<char>) -> Option<u32> {
        if exists|i: int| 0 <= i < self.entries@.len() && (#[trigger] self.entries@[i]).0@ == name {
            Some(self.entries@[reading_index_from(self.entries@, name, 0)].1)
        } else {
            None
        }
    }

    pub fn new() -> (r: InputReadings)
        ensures
            r.entries@.len() == 0,
    {
        InputReadings { entries: Vec::new() }
    }

    pub fn push(&mut self, name: String, code: u32)
        ensures
            final(self).entries@ == old(self).entries@.push((name, code)),
    {
        self.entries.push((name, code));
    }

    pub fn get(&self, name: &String) -> (r: Option<u32>)
        ensures
            r == self.spec_get(name@),
    {
        let n = self.entries.len();
        let mut j: usize = 0;
        while j < n
            invariant
                0 <= j <= n,
                n == self.entries@.len(),
                forall|i: int| 0 <= i < j ==> (#[trigger] self.entries@[i]).0@ != name@,
                reading_index_from(self.entries@, name@, 0) == reading_index_from(
                    self.entries@,
                    name@,
                    j as int,
                ),
            decreases n - j,
        {
            if self.entries[j].0 == *name {
                return Some(self.entries[j].1);
            }
            j += 1;
        }
        None
    }
}

} // verus!
