//! The command line's grammar.
use vstd::prelude::*;

use crate::text;

verus! {

/// What a command line asks for.
#[derive(Debug, PartialEq, Eq)]
pub enum Command {
    /// Send an archive to the node as the project of a job.
    Upload { job_id: String, archive_path: String },
    /// An upload with the wrong number of arguments.
    UploadUsage,
    /// Run the line on the node.
    Run(String),
}

/// The value of a `Command`.
pub enum CommandModel {
    Upload { job_id: Seq<char>, archive_path: Seq<char> },
    UploadUsage,
    Run(Seq<char>),
}

impl View for Command {
    type V = CommandModel;

    open spec fn view(&self) -> CommandModel {
        match self {
            Command::Upload { job_id, archive_path } => CommandModel::Upload {
                job_id: job_id@,
                archive_path: archive_path@,
            },
            Command::UploadUsage => CommandModel::UploadUsage,
            Command::Run(line) => CommandModel::Run(line@),
        }
    }
}

/// What `line` asks for: `upload ` and two words are an upload, `upload ` and
/// any other number of words are not understood, and everything else is run.
pub open spec fn meaning(line: Seq<char>) -> CommandModel {
    match text::after_prefix(line, "upload "@) {
        Some(rest) => {
            let args = text::words(rest);
            if args.len() == 2 {
                CommandModel::Upload { job_id: args[0], archive_path: args[1] }
            } else {
                CommandModel::UploadUsage
            }
        },
        None => CommandModel::Run(line),
    }
}

/// Reads a command line.
pub fn parse(line: String) -> (r: Command)
    ensures
        r@ == meaning(line@),
{
    match text::strip_prefix(line.as_str(), "upload ") {
        Some(rest) => {
            let mut args = text::split_whitespace(rest.as_str());
            if args.len() == 2 {
                let ghost read = args@;
                assert(text::texts(read)[0] == read[0]@ && text::texts(read)[1] == read[1]@);
                let archive_path = args.swap_remove(1);
                let job_id = args.swap_remove(0);
                Command::Upload { job_id, archive_path }
            } else {
                Command::UploadUsage
            }
        },
        None => Command::Run(line),
    }
}

} // verus!
