//! The error value every fallible operation of this crate returns.

use vstd::prelude::*;
use vstd::string::*;

verus! {

/// A failure, with the text to show and the way it should be reported.
#[derive(Debug)]
pub struct RoleManagerError {
    pub cause: String,
    pub report_via_edit: bool,
}

impl RoleManagerError {
    /// An error that is reported as a fresh message.
    pub fn new(cause: String) -> (e: Self)
        ensures
            e.cause == cause,
            !e.report_via_edit,
    {
        RoleManagerError { cause, report_via_edit: false }
    }

    /// An error that is reported by editing the pending reply.
    pub fn new_edit(cause: String) -> (e: Self)
        ensures
            e.cause == cause,
            e.report_via_edit,
    {
        RoleManagerError { cause, report_via_edit: true }
    }
}

impl RoleManagerError {
    /// The line that shows the error.
    pub fn to_string(&self) -> (text: String)
        ensures
            text@ == "cause: "@ + self.cause@,
    {
        let mut text = String::from_str("cause: ");
        text.append(self.cause.as_str());
        text
    }
}

impl From<String> for RoleManagerError {
    fn from(cause: String) -> (e: Self) {
        RoleManagerError { cause, report_via_edit: false }
    }
}

impl vstd::std_specs::convert::FromSpecImpl<String> for RoleManagerError {
    open spec fn obeys_from_spec() -> bool {
        true
    }

    open spec fn from_spec(cause: String) -> Self {
        RoleManagerError { cause, report_via_edit: false }
    }
}

} // verus!
