//! The failures that the kernel's subsystems report to the code that boots
//! them.

use vstd::prelude::*;
use vstd::string::StringExecFns;

verus! {

/// A failure, by kind, with a description of what failed.
#[derive(Debug)]
pub enum Error {
    /// A failure inside the kernel.
    Internal(String),
    /// A page could not be mapped.
    Mapping(String),
    /// No memory was left.
    OutOfMemory(String),
    /// A memory layout was invalid.
    MemoryLayout(String),
    /// A register held a value that is not valid for it.
    InvalidRegister(String),
    /// A number did not fit the type it was converted to.
    Conversion(String),
    /// A task failed.
    Task(String),
}

impl Error {
    /// The words that name the kind of the error in its message.
    pub open spec fn label_of(self) -> Seq<char> {
        match self {
            Error::Internal(_) => "Internal Error: "@,
            Error::Mapping(_) => "Mapping Error: "@,
            Error::OutOfMemory(_) => "Out of Memory Error: "@,
            Error::MemoryLayout(_) => "Memory Layout Error: "@,
            Error::InvalidRegister(_) => "Invalid Register Error: "@,
            Error::Conversion(_) => "Conversion Error: "@,
            Error::Task(_) => "Task Error: "@,
        }
    }

    /// The description that the error carries.
    pub open spec fn detail_of(self) -> Seq<char> {
        match self {
            Error::Internal(detail) => detail@,
            Error::Mapping(detail) => detail@,
            Error::OutOfMemory(detail) => detail@,
            Error::MemoryLayout(detail) => detail@,
            Error::InvalidRegister(detail) => detail@,
            Error::Conversion(detail) => detail@,
            Error::Task(detail) => detail@,
        }
    }

    /// The description that the error carries.
    pub fn detail(&self) -> (detail: &String)
        ensures
            detail@ == self.detail_of(),
    {
        match self {
            Error::Internal(detail) => detail,
            Error::Mapping(detail) => detail,
            Error::OutOfMemory(detail) => detail,
            Error::MemoryLayout(detail) => detail,
            Error::InvalidRegister(detail) => detail,
            Error::Conversion(detail) => detail,
            Error::Task(detail) => detail,
        }
    }

    /// The message of the error: the name of its kind, then its description.
    pub fn message(&self) -> (text: String)
        ensures
            text@ == self.label_of() + self.detail_of(),
    {
        let label = match self {
            Error::Internal(_) => "Internal Error: ",
            Error::Mapping(_) => "Mapping Error: ",
            Error::OutOfMemory(_) => "Out of Memory Error: ",
            Error::MemoryLayout(_) => "Memory Layout Error: ",
            Error::InvalidRegister(_) => "Invalid Register Error: ",
            Error::Conversion(_) => "Conversion Error: ",
            Error::Task(_) => "Task Error: ",
        };
        let mut text = String::from_str(label);
        text.append(self.detail().as_str());
        text
    }
}

} // verus!
