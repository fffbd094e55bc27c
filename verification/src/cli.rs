//! The command line tool.
use vstd::prelude::*;

use crate::task::Task;
use crate::task::TaskService;
use crate::text;

verus! {

/// What the tool prints.
#[derive(Debug, PartialEq, Eq)]
pub enum CliOutput {
    /// A sample task and whether it is valid.
    Protocol { task: Task, valid: bool },
    /// A line of text.
    Line(String),
}

/// The tool is asked to try out the protocol.
pub open spec fn asks_protocol(args: Seq<Seq<char>>) -> bool {
    args.len() == 2 && args[1] == "test-protocol"@
}

/// What the tool says otherwise. The first argument is the tool's own name.
pub open spec fn reply(args: Seq<Seq<char>>) -> Seq<char> {
    if args.len() <= 1 {
        "Usage: fluxa-cli [submit|agent|test-protocol]"@
    } else if args[1] == "submit"@ {
        "Submitting task..."@
    } else if args[1] == "agent"@ {
        "Starting agent..."@
    } else {
        "Unknown command"@
    }
}

/// What the tool prints for its arguments.
pub fn run(args: &Vec<String>) -> (r: CliOutput)
    ensures
        match r {
            CliOutput::Protocol { task, valid } => {
                &&& asks_protocol(text::texts(args@))
                &&& task.id == 1
                &&& task.name@ == "Hello"@
                &&& task.payload@ == seq![1u8, 2u8, 3u8]
                &&& valid
            },
            CliOutput::Line(line) => {
                &&& !asks_protocol(text::texts(args@))
                &&& line@ == reply(text::texts(args@))
            },
        },
{
    let ghost given = text::texts(args@);
    if args.len() <= 1 {
        return CliOutput::Line("Usage: fluxa-cli [submit|agent|test-protocol]".to_owned());
    }
    assert(given[1] == args@[1]@);
    if args.len() == 2 && args[1] == "test-protocol".to_owned() {
        let task = TaskService::new_task(1, "Hello", vec![1, 2, 3]);
        let valid = TaskService::validate_task(&task);
        proof {
            reveal_strlit("Hello");
        }
        return CliOutput::Protocol { task, valid };
    }
    if args[1] == "submit".to_owned() {
        CliOutput::Line("Submitting task...".to_owned())
    } else if args[1] == "agent".to_owned() {
        CliOutput::Line("Starting agent...".to_owned())
    } else {
        CliOutput::Line("Unknown command".to_owned())
    }
}

} // verus!
