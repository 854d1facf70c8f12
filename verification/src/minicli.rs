//! The command-line surface, as a pure parse: the argument list in, the
//! command out. Reading the process arguments and acting on the command —
//! printing, touching the store — happens outside.

use vstd::prelude::*;
use crate::text::str_eq;

verus! {

/// What a command-line invocation asks for.
#[derive(Debug, Clone)]
pub enum CliCommand {
    /// No arguments: start the service with the default configuration path.
    Start,
    /// `user add <name> <password>`.
    UserAdd { name: String, password: String },
    /// `user remove <name>`.
    UserRemove { name: String },
    /// `lists add <remote_playlist_id> [<external_playlist_id>]`.
    ListsAdd { playlist_id: String, jelly_playlist_id: Option<String> },
    /// `lists remove <remote_playlist_id>`.
    ListsRemove { playlist_id: String },
    /// `lists list`.
    ListsList,
    /// `run <config_path>`: start the service with an explicit path.
    Run { config_path: String },
    /// A recognized command with a missing argument: the message to print.
    MissingArgument { message: String },
    /// Anything else: reported and the process exits.
    Invalid,
}

/// What the caller does after handling a command.
#[derive(Debug, Clone)]
pub enum CliResult {
    /// The command was handled; the process exits.
    Exit,
    /// The service starts, with an explicit configuration path if one was
    /// given.
    Continue(Option<String>),
}

/// The command a list of arguments asks for, the program name excluded.
pub fn parse_args(args: &Vec<String>) -> (r: CliCommand)
    ensures
        args@.len() == 0 ==> r is Start,
        args@.len() >= 1 ==> (if args@[0]@ == "run"@ {
            if args@.len() >= 2 {
                r matches CliCommand::Run { config_path } && config_path@ == args@[1]@
            } else {
                r is MissingArgument
            }
        } else if args@[0]@ == "user"@ {
            if args@.len() >= 2 && args@[1]@ == "add"@ {
                if args@.len() >= 4 {
                    r matches CliCommand::UserAdd { name, password } && name@ == args@[2]@
                        && password@ == args@[3]@
                } else {
                    r is MissingArgument
                }
            } else if args@.len() >= 2 && args@[1]@ == "remove"@ {
                if args@.len() >= 3 {
                    r matches CliCommand::UserRemove { name } && name@ == args@[2]@
                } else {
                    r is MissingArgument
                }
            } else {
                r is Invalid
            }
        } else if args@[0]@ == "lists"@ {
            if args@.len() >= 2 && args@[1]@ == "add"@ {
                if args@.len() >= 3 {
                    r matches CliCommand::ListsAdd { playlist_id, jelly_playlist_id }
                        && playlist_id@ == args@[2]@ && (if args@.len() >= 4 {
                        jelly_playlist_id matches Some(j) && j@ == args@[3]@
                    } else {
                        jelly_playlist_id is None
                    })
                } else {
                    r is MissingArgument
                }
            } else if args@.len() >= 2 && args@[1]@ == "remove"@ {
                if args@.len() >= 3 {
                    r matches CliCommand::ListsRemove { playlist_id } && playlist_id@ == args@[2]@
                } else {
                    r is MissingArgument
                }
            } else if args@.len() >= 2 && args@[1]@ == "list"@ {
                r is ListsList
            } else {
                r is Invalid
            }
        } else {
            r is Invalid
        }),
{
    if args.len() == 0 {
        return CliCommand::Start;
    }
    if str_eq(args[0].as_str(), "run") {
        if args.len() >= 2 {
            return CliCommand::Run { config_path: args[1].clone() };
        }
        return CliCommand::MissingArgument {
            message: String::from_str("missing <config_path>"),
        };
    }
    if str_eq(args[0].as_str(), "user") {
        if args.len() >= 2 && str_eq(args[1].as_str(), "add") {
            if args.len() >= 4 {
                return CliCommand::UserAdd { name: args[2].clone(), password: args[3].clone() };
            }
            if args.len() >= 3 {
                return CliCommand::MissingArgument {
                    message: String::from_str("missing <password>"),
                };
            }
            return CliCommand::MissingArgument { message: String::from_str("missing <user>") };
        }
        if args.len() >= 2 && str_eq(args[1].as_str(), "remove") {
            if args.len() >= 3 {
                return CliCommand::UserRemove { name: args[2].clone() };
            }
            return CliCommand::MissingArgument { message: String::from_str("missing <user>") };
        }
        return CliCommand::Invalid;
    }
    if str_eq(args[0].as_str(), "lists") {
        if args.len() >= 2 && str_eq(args[1].as_str(), "add") {
            if args.len() >= 3 {
                let jelly = if args.len() >= 4 {
                    Some(args[3].clone())
                } else {
                    None
                };
                return CliCommand::ListsAdd {
                    playlist_id: args[2].clone(),
                    jelly_playlist_id: jelly,
                };
            }
            return CliCommand::MissingArgument { message: String::from_str("missing <list_id>") };
        }
        if args.len() >= 2 && str_eq(args[1].as_str(), "remove") {
            if args.len() >= 3 {
                return CliCommand::ListsRemove { playlist_id: args[2].clone() };
            }
            return CliCommand::MissingArgument { message: String::from_str("missing <list_id>") };
        }
        if args.len() >= 2 && str_eq(args[1].as_str(), "list") {
            return CliCommand::ListsList;
        }
        return CliCommand::Invalid;
    }
    CliCommand::Invalid
}

} // verus!
