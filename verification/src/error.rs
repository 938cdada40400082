//! What can stop a run, and how it is reported.

use vstd::prelude::*;
use vstd::string::*;

verus! {

/// What stopped a run. Each error but the last names the file that it is
/// about; the last field is the cause, as text.
#[derive(Debug, PartialEq)]
pub enum Error {
    /// The rules could not be read.
    ReadConfig(String, String),
    /// The rules are not what rules look like.
    ParseConfig(String, String),
    /// A document could not be read.
    ReadXML(String, String),
    /// A document is not well-formed.
    ParseXML(String, String),
    /// The output could not be written.
    WriteOutput(String),
}

/// What an error says went wrong, without the cause.
pub open spec fn headline(error: Error) -> Seq<char> {
    match error {
        Error::ReadConfig(path, _) => "Failed to read `"@ + path@ + "`"@,
        Error::ParseConfig(path, _) => "Failed to parse config `"@ + path@ + "`"@,
        Error::ReadXML(path, _) => "Failed to read XML file `"@ + path@ + "`"@,
        Error::ParseXML(path, _) => "Failed to parse XML file `"@ + path@ + "`"@,
        Error::WriteOutput(_) => "Failed to write output"@,
    }
}

/// The cause that an error gives.
pub open spec fn cause_of(error: Error) -> Seq<char> {
    match error {
        Error::ReadConfig(_, cause) => cause@,
        Error::ParseConfig(_, cause) => cause@,
        Error::ReadXML(_, cause) => cause@,
        Error::ParseXML(_, cause) => cause@,
        Error::WriteOutput(cause) => cause@,
    }
}

/// The report of a failure: what went wrong, a blank line, and the cause.
pub open spec fn report(msg: Seq<char>, cause: Seq<char>) -> Seq<char> {
    "Error: "@ + msg + "\n\nCause: "@ + cause
}

/// Writes the report of a failure.
pub fn write_error(msg: &str, cause: &str) -> (text: String)
    ensures
        text@ == report(msg@, cause@),
{
    let mut text = "Error: ".to_owned();
    text.append(msg);
    text.append("\n\nCause: ");
    text.append(cause);
    text
}

/// What went wrong with a file: the words, then the file's name between
/// backquotes.
fn about_file(words: &str, path: &String) -> (text: String)
    ensures
        text@ == words@ + path@ + "`"@,
{
    let mut text = words.to_owned();
    text.append(path.as_str());
    text.append("`");
    text
}

impl Error {
    /// The report of the error.
    pub fn to_string(&self) -> (text: String)
        ensures
            text@ == report(headline(*self), cause_of(*self)),
    {
        match self {
            Error::ReadConfig(path, cause) => write_error(
                about_file("Failed to read `", path).as_str(),
                cause.as_str(),
            ),
            Error::ParseConfig(path, cause) => write_error(
                about_file("Failed to parse config `", path).as_str(),
                cause.as_str(),
            ),
            Error::ReadXML(path, cause) => write_error(
                about_file("Failed to read XML file `", path).as_str(),
                cause.as_str(),
            ),
            Error::ParseXML(path, cause) => write_error(
                about_file("Failed to parse XML file `", path).as_str(),
                cause.as_str(),
            ),
            Error::WriteOutput(cause) => write_error("Failed to write output", cause.as_str()),
        }
    }
}

} // verus!
