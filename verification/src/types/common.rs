//! Shared small value objects: validated names, millisecond timestamps,
//! and the three-way settable option.

use vstd::prelude::*;
use vstd::string::StringExecFns;
use crate::error::{Error, ErrorCode};

verus! {

/// A value that a table option can take: an explicit value, the service
/// default, or no change to what is already set.
#[derive(Debug, Clone, PartialEq, Eq)]
pub enum SettableValue<V> {
    Value(V),
    Default,
    NoChange,
}

/// A table or column name.  `new` admits only non-empty names; a name
/// decoded off the wire enters through `from_string` unchecked, as the
/// server is trusted for its own payloads.
#[derive(Debug, PartialEq, Eq)]
pub struct Name {
    text: String,
}

impl View for Name {
    type V = Seq<char>;

    closed spec fn view(&self) -> Seq<char> {
        self.text@
    }
}

impl DeepView for Name {
    type V = Seq<char>;

    open spec fn deep_view(&self) -> Seq<char> {
        self.view()
    }
}

impl Clone for Name {
    fn clone(&self) -> (r: Self)
        ensures
            r@ == self@,
    {
        Name { text: self.text.clone() }
    }
}

impl Name {
    /// Builds a validated name: fails exactly on the empty string.
    pub fn new(name: String) -> (r: Result<Name, Error>)
        ensures
            name@.len() > 0 ==> (r matches Ok(n) && n@ == name@),
            name@.len() == 0 ==> (r matches Err(e) && e.code == ErrorCode::ClientUnknown),
    {
        if name.as_str().is_empty() {
            Err(
                Error {
                    code: ErrorCode::ClientUnknown,
                    message: String::from_str("Name is required not to be empty."),
                },
            )
        } else {
            Ok(Name { text: name })
        }
    }

    /// Wraps a string as a name without validation.
    pub fn from_string(name: String) -> (r: Name)
        ensures
            r@ == name@,
    {
        Name { text: name }
    }

    /// The name's characters.
    pub fn as_str(&self) -> (r: &str)
        ensures
            r@ == self@,
    {
        self.text.as_str()
    }

    /// Surrenders the underlying string.
    pub fn into_string(self) -> (r: String)
        ensures
            r@ == self@,
    {
        self.text
    }
}

/// An instant in milliseconds since the Unix epoch, the precision the row
/// codec stores for client-attached attribute timestamps.
#[derive(Debug, Clone, Copy, PartialEq, Eq, Structural)]
pub struct DateTime {
    millis: i64,
}

impl View for DateTime {
    type V = i64;

    closed spec fn view(&self) -> i64 {
        self.millis
    }
}

impl DateTime {
    /// The current wall clock.  Nothing is promised of the value.
    pub fn now() -> DateTime {
        DateTime { millis: utc_now_millis() }
    }

    /// The instant as milliseconds since the Unix epoch.
    pub fn to_millis(&self) -> (r: i64)
        ensures
            r == self@,
    {
        self.millis
    }

    /// The instant holding the given milliseconds since the Unix epoch.
    pub fn from_millis(millis: i64) -> (r: DateTime)
        ensures
            r@ == millis,
    {
        DateTime { millis }
    }
}

/// Relies on `chrono::Utc::now` for the current wall-clock time, read out
/// with `DateTime::timestamp_millis`.  The value changes from call to
/// call, so nothing is stated of it.
#[verifier::external_body]
pub(crate) fn utc_now_millis() -> i64 {
    chrono::Utc::now().timestamp_millis()
}

} // verus!
