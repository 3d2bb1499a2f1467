//! Errors of the user-facing commands.

use vstd::prelude::*;

verus! {

/// An error of a command. Errors of outside services are carried as their
/// messages.
#[derive(PartialEq, Eq, Clone, Debug)]
pub enum Error {
    Io(String),
    Catalog(String),
    Shell(String),
    Anyhow(String),
    Notify(String),
    PathBufToString,
    NotADirectory,
    DirectoryAlreadyExistsInDb,
}

/// The message shown for an error: an outside error's own message, or a
/// fixed sentence.
pub open spec fn error_message(e: Error) -> Seq<char> {
    match e {
        Error::Io(m) => m@,
        Error::Catalog(m) => m@,
        Error::Shell(m) => m@,
        Error::Anyhow(m) => m@,
        Error::Notify(m) => m@,
        Error::PathBufToString => "Error converting PathBuf to String. Path is likely not valid UTF-8."@,
        Error::NotADirectory => "The path is not a directory."@,
        Error::DirectoryAlreadyExistsInDb => "The directory already exists in the database"@,
    }
}

impl Error {
    /// The message shown for this error.
    pub fn message(&self) -> (r: String)
        ensures
            r@ == error_message(*self),
    {
        match self {
            Error::Io(m) => m.clone(),
            Error::Catalog(m) => m.clone(),
            Error::Shell(m) => m.clone(),
            Error::Anyhow(m) => m.clone(),
            Error::Notify(m) => m.clone(),
            Error::PathBufToString => String::from_str(
                "Error converting PathBuf to String. Path is likely not valid UTF-8.",
            ),
            Error::NotADirectory => String::from_str("The path is not a directory."),
            Error::DirectoryAlreadyExistsInDb => String::from_str(
                "The directory already exists in the database",
            ),
        }
    }
}

/// An error together with the identifier of the task it ended, so that the
/// interface can clear what it showed for the task.
#[derive(Clone, Debug)]
pub struct TaskError {
    pub task_uuid: String,
    pub error: Error,
}

} // verus!
