//! Errors.

use vstd::prelude::*;

verus! {

/// `std::io::Error`.
#[verifier::external_type_specification]
#[verifier::external_body]
pub struct ExIoError(std::io::Error);

/// What can go wrong while the admin server runs.
#[derive(Debug)]
pub enum AdminError {
    Io(std::io::Error),
}

impl From<std::io::Error> for AdminError {
    fn from(value: std::io::Error) -> (error: AdminError) {
        AdminError::Io(value)
    }
}

impl vstd::std_specs::convert::FromSpecImpl<std::io::Error> for AdminError {
    open spec fn obeys_from_spec() -> bool {
        true
    }

    open spec fn from_spec(v: std::io::Error) -> AdminError {
        AdminError::Io(v)
    }
}

/// What can go wrong while a cluster id is changed. A database error is kept as its message.
#[derive(Debug, Clone)]
pub enum ProcessingError {
    Sqlite(String),
    Send,
    CallbackRecv,
    String(String),
}

impl ProcessingError {
    /// The message of the error.
    pub open spec fn shown(self) -> Seq<char> {
        match self {
            ProcessingError::Sqlite(msg) => msg@,
            ProcessingError::Send => "could not send via channel"@,
            ProcessingError::CallbackRecv => "could not receive response from a callback"@,
            ProcessingError::String(msg) => msg@,
        }
    }

    /// Gives the message of the error.
    pub fn message(self) -> (text: String)
        ensures
            text@ == self.shown(),
    {
        match self {
            ProcessingError::Sqlite(msg) => msg,
            ProcessingError::Send => "could not send via channel".to_owned(),
            ProcessingError::CallbackRecv => "could not receive response from a callback".to_owned(),
            ProcessingError::String(msg) => msg,
        }
    }
}

/// What can go wrong during a backup. Either error is kept as its message.
#[derive(Debug, Clone)]
pub enum BackupError {
    Pool(String),
    Sqlite(String),
}

impl BackupError {
    /// The message of the error.
    pub open spec fn shown(self) -> Seq<char> {
        match self {
            BackupError::Pool(msg) => msg@,
            BackupError::Sqlite(msg) => msg@,
        }
    }

    /// Gives the message of the error.
    pub fn message(self) -> (text: String)
        ensures
            text@ == self.shown(),
    {
        match self {
            BackupError::Pool(msg) => msg,
            BackupError::Sqlite(msg) => msg,
        }
    }
}

/// An error that is kept as a message is shown as that message, whatever it says.
pub proof fn law_messages_are_kept(msg: String)
    ensures
        ProcessingError::Sqlite(msg).shown() == msg@,
        ProcessingError::String(msg).shown() == msg@,
        BackupError::Pool(msg).shown() == msg@,
        BackupError::Sqlite(msg).shown() == msg@,
{
}

} // verus!
