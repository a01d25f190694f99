//! What the words mean that a user types: on the command line, at the prompt
//! for a file, and in the menu that follows an analysis.

use vstd::prelude::*;
use crate::text::{ascii_lowercase, chars_of, reads, reads_ignoring_case};

verus! {

/// What the first argument of the command line asks for.
#[derive(Debug, Clone, Copy, PartialEq, Eq, Structural)]
pub enum CommandLineRequest {
    /// Show how the program is used.
    ShowHelp,
    /// Describe the file named by the next argument.
    Describe,
    /// Show one row of a file; the row and the file are the next arguments.
    ShowRow,
    /// Analyse the file that the argument names.
    AnalyzeFile,
}

/// What the argument `argument` asks for. Arguments are read as they are
/// written, capitals and all.
pub open spec fn command_line_request(argument: Seq<char>) -> CommandLineRequest {
    if argument == "--help"@ || argument == "-h"@ || argument == "help"@ {
        CommandLineRequest::ShowHelp
    } else if argument == "--describe"@ {
        CommandLineRequest::Describe
    } else if argument == "--row"@ {
        CommandLineRequest::ShowRow
    } else {
        CommandLineRequest::AnalyzeFile
    }
}

/// What the first argument of the command line asks for.
pub fn read_command_line_request(argument: &str) -> (request: CommandLineRequest)
    ensures
        request == command_line_request(argument@),
{
    let v = chars_of(argument);
    let n = v.len();
    assert(v@.subrange(0, n as int) == v@);
    if reads(&v, 0, n, "--help") || reads(&v, 0, n, "-h") || reads(&v, 0, n, "help") {
        CommandLineRequest::ShowHelp
    } else if reads(&v, 0, n, "--describe") {
        CommandLineRequest::Describe
    } else if reads(&v, 0, n, "--row") {
        CommandLineRequest::ShowRow
    } else {
        CommandLineRequest::AnalyzeFile
    }
}

/// What an answer at the prompt for a file means.
#[derive(Debug, Clone, Copy, PartialEq, Eq, Structural)]
pub enum PathInputCommand {
    /// Nothing was typed.
    Empty,
    /// The user gives up.
    Quit,
    /// The user asks for help.
    Help,
    /// The answer is the path of a file.
    Path,
}

/// What the trimmed answer `answer` means at the prompt for a file. Commands
/// are read in any mix of upper and lower case.
pub open spec fn path_input_command(answer: Seq<char>) -> PathInputCommand {
    let lower = ascii_lowercase(answer);
    if lower.len() == 0 {
        PathInputCommand::Empty
    } else if lower == "quit"@ || lower == "q"@ || lower == "exit"@ {
        PathInputCommand::Quit
    } else if lower == "help"@ || lower == "h"@ || lower == "?"@ {
        PathInputCommand::Help
    } else {
        PathInputCommand::Path
    }
}

/// What the trimmed answer of the user means at the prompt for a file.
pub fn read_path_input_command(answer: &str) -> (command: PathInputCommand)
    ensures
        command == path_input_command(answer@),
{
    let v = chars_of(answer);
    let n = v.len();
    assert(v@.subrange(0, n as int) == v@);
    if n == 0 {
        PathInputCommand::Empty
    } else if reads_ignoring_case(&v, 0, n, "quit") || reads_ignoring_case(&v, 0, n, "q")
        || reads_ignoring_case(&v, 0, n, "exit") {
        PathInputCommand::Quit
    } else if reads_ignoring_case(&v, 0, n, "help") || reads_ignoring_case(&v, 0, n, "h")
        || reads_ignoring_case(&v, 0, n, "?") {
        PathInputCommand::Help
    } else {
        PathInputCommand::Path
    }
}

/// What an answer in the menu after an analysis means.
#[derive(Debug, Clone, Copy, PartialEq, Eq, Structural)]
pub enum MenuChoice {
    /// Review the types of the columns.
    ReviewTypes,
    /// Load the data into the directory structure.
    LoadData,
    /// Export the report of the analysis.
    ExportReport,
    /// Leave the program.
    Quit,
    /// Explain the menu.
    Help,
    /// Nothing was typed.
    Empty,
    /// The answer is none of the choices.
    Unknown,
}

/// What the trimmed answer `answer` means in the menu. Choices are read in
/// any mix of upper and lower case; each has a number and a few names.
pub open spec fn menu_choice(answer: Seq<char>) -> MenuChoice {
    let lower = ascii_lowercase(answer);
    if lower == "1"@ || lower == "review"@ || lower == "types"@ || lower == "edit"@ {
        MenuChoice::ReviewTypes
    } else if lower == "2"@ || lower == "load"@ || lower == "import"@ || lower == "directory"@ {
        MenuChoice::LoadData
    } else if lower == "3"@ || lower == "export"@ || lower == "report"@ || lower == "save"@ {
        MenuChoice::ExportReport
    } else if lower == "4"@ || lower == "quit"@ || lower == "exit"@ || lower == "q"@ {
        MenuChoice::Quit
    } else if lower == "help"@ || lower == "h"@ || lower == "?"@ {
        MenuChoice::Help
    } else if lower.len() == 0 {
        MenuChoice::Empty
    } else {
        MenuChoice::Unknown
    }
}

/// What the trimmed answer of the user means in the menu after an analysis.
pub fn read_menu_choice(answer: &str) -> (choice: MenuChoice)
    ensures
        choice == menu_choice(answer@),
{
    let v = chars_of(answer);
    let n = v.len();
    assert(v@.subrange(0, n as int) == v@);
    if reads_ignoring_case(&v, 0, n, "1") || reads_ignoring_case(&v, 0, n, "review")
        || reads_ignoring_case(&v, 0, n, "types") || reads_ignoring_case(&v, 0, n, "edit") {
        MenuChoice::ReviewTypes
    } else if reads_ignoring_case(&v, 0, n, "2") || reads_ignoring_case(&v, 0, n, "load")
        || reads_ignoring_case(&v, 0, n, "import") || reads_ignoring_case(&v, 0, n, "directory") {
        MenuChoice::LoadData
    } else if reads_ignoring_case(&v, 0, n, "3") || reads_ignoring_case(&v, 0, n, "export")
        || reads_ignoring_case(&v, 0, n, "report") || reads_ignoring_case(&v, 0, n, "save") {
        MenuChoice::ExportReport
    } else if reads_ignoring_case(&v, 0, n, "4") || reads_ignoring_case(&v, 0, n, "quit")
        || reads_ignoring_case(&v, 0, n, "exit") || reads_ignoring_case(&v, 0, n, "q") {
        MenuChoice::Quit
    } else if reads_ignoring_case(&v, 0, n, "help") || reads_ignoring_case(&v, 0, n, "h")
        || reads_ignoring_case(&v, 0, n, "?") {
        MenuChoice::Help
    } else if n == 0 {
        MenuChoice::Empty
    } else {
        MenuChoice::Unknown
    }
}

/// What the ending of a file name says of the file.
#[derive(Debug, Clone, Copy, PartialEq, Eq, Structural)]
pub enum ExtensionKind {
    /// The ending of a delimited text file: `csv` or `tsv`.
    Delimited,
    /// Another ending.
    Other,
    /// No ending at all.
    Missing,
}

/// What the ending `extension` says of a file, in any mix of upper and lower
/// case.
pub open spec fn extension_kind(extension: Option<Seq<char>>) -> ExtensionKind {
    match extension {
        Some(ending) => if ascii_lowercase(ending) == "csv"@ || ascii_lowercase(ending) == "tsv"@ {
            ExtensionKind::Delimited
        } else {
            ExtensionKind::Other
        },
        None => ExtensionKind::Missing,
    }
}

/// What the ending of a file name says of the file.
pub fn classify_extension(extension: Option<&str>) -> (kind: ExtensionKind)
    ensures
        kind == extension_kind(
            match extension {
                Some(ending) => Some(ending@),
                None => None,
            },
        ),
{
    match extension {
        Some(ending) => {
            let v = chars_of(ending);
            let n = v.len();
            assert(v@.subrange(0, n as int) == v@);
            if reads_ignoring_case(&v, 0, n, "csv") || reads_ignoring_case(&v, 0, n, "tsv") {
                ExtensionKind::Delimited
            } else {
                ExtensionKind::Other
            }
        },
        None => ExtensionKind::Missing,
    }
}

} // verus!
