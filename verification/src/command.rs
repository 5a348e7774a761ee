//! The command grammar: one tokenized line becomes a typed command. The
//! first token selects the verb, by its long form or its short alias; the
//! remaining tokens are the arguments, validated for arity and, where an id
//! is expected, for being a decimal `i32`. Arity and id failures are
//! distinct errors naming the verb, never a partially filled command.

use crate::text::{i32_value, is_valid_i32, parse_i32, str_eq};
use crate::tokenizer::{spec_tokens, tokenize};
use vstd::prelude::*;
use vstd::string::*;

verus! {

/// The verbs the shell recognizes.
#[derive(Clone, Copy, PartialEq, Eq, Structural, Debug)]
pub enum Verb {
    CreateUser,
    ChangePassword,
    CreateTodo,
    SearchTodo,
    EditTodo,
    DeleteTodo,
    MarkTodoAsDone,
    ListAllTodos,
    ListAllPendingTodos,
    Help,
    Exit,
}

/// Why a line failed to parse. Arity and id failures name the verb they
/// were checked against.
#[derive(Clone, Copy, PartialEq, Eq, Structural, Debug)]
pub enum ParseError {
    /// The line held no token at all.
    EmptyLine,
    /// The first token is no verb of the grammar.
    UnknownCommand,
    /// The verb got more or fewer arguments than it takes.
    WrongArity(Verb),
    /// An argument that must be a decimal `i32` id is not one.
    InvalidId(Verb),
}

/// A parsed command. The password change carries no fields: the grammar
/// only validates the verb and its arity, and the two password lines are
/// collected afterwards by masked prompts outside the library.
#[derive(PartialEq, Eq, Debug)]
pub enum ReplCommand {
    CreateUser(String, String),
    ChangePassword,
    CreateTodo(String),
    SearchTodo(String),
    EditTodo(i32, String),
    DeleteTodo(i32),
    MarkTodoAsDone(i32),
    ListAllTodos,
    ListAllPendingTodos,
    Help,
    Exit,
}

/// The mathematical image of a [`ReplCommand`].
pub enum SpecCommand {
    CreateUser(Seq<char>, Seq<char>),
    ChangePassword,
    CreateTodo(Seq<char>),
    SearchTodo(Seq<char>),
    EditTodo(int, Seq<char>),
    DeleteTodo(int),
    MarkTodoAsDone(int),
    ListAllTodos,
    ListAllPendingTodos,
    Help,
    Exit,
}

impl View for ReplCommand {
    type V = SpecCommand;

    open spec fn view(&self) -> SpecCommand {
        match self {
            ReplCommand::CreateUser(u, p) => SpecCommand::CreateUser(u@, p@),
            ReplCommand::ChangePassword => SpecCommand::ChangePassword,
            ReplCommand::CreateTodo(d) => SpecCommand::CreateTodo(d@),
            ReplCommand::SearchTodo(d) => SpecCommand::SearchTodo(d@),
            ReplCommand::EditTodo(id, d) => SpecCommand::EditTodo(*id as int, d@),
            ReplCommand::DeleteTodo(id) => SpecCommand::DeleteTodo(*id as int),
            ReplCommand::MarkTodoAsDone(id) => SpecCommand::MarkTodoAsDone(*id as int),
            ReplCommand::ListAllTodos => SpecCommand::ListAllTodos,
            ReplCommand::ListAllPendingTodos => SpecCommand::ListAllPendingTodos,
            ReplCommand::Help => SpecCommand::Help,
            ReplCommand::Exit => SpecCommand::Exit,
        }
    }
}

/// The verb a first token selects, long form or short alias, or `None` for
/// an unknown command. Verbs are case-sensitive.
pub open spec fn verb_of(tok: Seq<char>) -> Option<Verb> {
    if tok == "create-user"@ || tok == "cu"@ {
        Some(Verb::CreateUser)
    } else if tok == "change-password"@ || tok == "cp"@ {
        Some(Verb::ChangePassword)
    } else if tok == "create-todo"@ || tok == "ct"@ {
        Some(Verb::CreateTodo)
    } else if tok == "search-todo"@ || tok == "st"@ {
        Some(Verb::SearchTodo)
    } else if tok == "edit-todo"@ || tok == "et"@ {
        Some(Verb::EditTodo)
    } else if tok == "delete-todo"@ || tok == "dt"@ {
        Some(Verb::DeleteTodo)
    } else if tok == "mark-todo-as-done"@ || tok == "md"@ {
        Some(Verb::MarkTodoAsDone)
    } else if tok == "list-all-todos"@ || tok == "lt"@ {
        Some(Verb::ListAllTodos)
    } else if tok == "list-all-pending-todos"@ || tok == "lp"@ {
        Some(Verb::ListAllPendingTodos)
    } else if tok == "help"@ {
        Some(Verb::Help)
    } else if tok == "exit"@ {
        Some(Verb::Exit)
    } else {
        None
    }
}

/// How many arguments each verb takes, exactly.
pub open spec fn arity(v: Verb) -> int {
    match v {
        Verb::CreateUser => 2,
        Verb::ChangePassword => 1,
        Verb::CreateTodo => 1,
        Verb::SearchTodo => 1,
        Verb::EditTodo => 2,
        Verb::DeleteTodo => 1,
        Verb::MarkTodoAsDone => 1,
        Verb::ListAllTodos => 0,
        Verb::ListAllPendingTodos => 0,
        Verb::Help => 0,
        Verb::Exit => 0,
    }
}

/// The command a token sequence denotes, or the parse error it fails with:
/// an empty line, an unknown verb, a wrong argument count for the verb, or
/// an id argument that is no decimal `i32`.
pub open spec fn parse_spec(toks: Seq<Seq<char>>) -> Result<SpecCommand, ParseError> {
    if toks.len() == 0 {
        Err(ParseError::EmptyLine)
    } else {
        match verb_of(toks[0]) {
            None => Err(ParseError::UnknownCommand),
            Some(v) => {
                if toks.len() - 1 != arity(v) {
                    Err(ParseError::WrongArity(v))
                } else {
                    match v {
                        Verb::CreateUser => Ok(SpecCommand::CreateUser(toks[1], toks[2])),
                        Verb::ChangePassword => Ok(SpecCommand::ChangePassword),
                        Verb::CreateTodo => Ok(SpecCommand::CreateTodo(toks[1])),
                        Verb::SearchTodo => Ok(SpecCommand::SearchTodo(toks[1])),
                        Verb::EditTodo => if is_valid_i32(toks[1]) {
                            Ok(SpecCommand::EditTodo(i32_value(toks[1]), toks[2]))
                        } else {
                            Err(ParseError::InvalidId(Verb::EditTodo))
                        },
                        Verb::DeleteTodo => if is_valid_i32(toks[1]) {
                            Ok(SpecCommand::DeleteTodo(i32_value(toks[1])))
                        } else {
                            Err(ParseError::InvalidId(Verb::DeleteTodo))
                        },
                        Verb::MarkTodoAsDone => if is_valid_i32(toks[1]) {
                            Ok(SpecCommand::MarkTodoAsDone(i32_value(toks[1])))
                        } else {
                            Err(ParseError::InvalidId(Verb::MarkTodoAsDone))
                        },
                        Verb::ListAllTodos => Ok(SpecCommand::ListAllTodos),
                        Verb::ListAllPendingTodos => Ok(SpecCommand::ListAllPendingTodos),
                        Verb::Help => Ok(SpecCommand::Help),
                        Verb::Exit => Ok(SpecCommand::Exit),
                    }
                }
            },
        }
    }
}

/// The image of a parse result under the command view.
pub open spec fn view_parse_result(r: Result<ReplCommand, ParseError>) -> Result<
    SpecCommand,
    ParseError,
> {
    match r {
        Ok(c) => Ok(c@),
        Err(e) => Err(e),
    }
}

/// Tokenizes one line and parses it against the grammar, returning exactly
/// what [`parse_spec`] denotes for the line's tokens.
pub fn parse_repl_command(line: &str) -> (r: Result<ReplCommand, ParseError>)
    ensures
        view_parse_result(r) == parse_spec(spec_tokens(line@)),
{
    let toks: Vec<&str> = tokenize(line);
    let ghost stoks = spec_tokens(line@);
    if toks.len() == 0 {
        return Err(ParseError::EmptyLine);
    }
    let command: &str = toks[0];
    let nargs = toks.len() - 1;
    if str_eq(command, "create-user") || str_eq(command, "cu") {
        if nargs != 2 {
            return Err(ParseError::WrongArity(Verb::CreateUser));
        }
        Ok(ReplCommand::CreateUser(String::from_str(toks[1]), String::from_str(toks[2])))
    } else if str_eq(command, "change-password") || str_eq(command, "cp") {
        if nargs != 1 {
            return Err(ParseError::WrongArity(Verb::ChangePassword));
        }
        Ok(ReplCommand::ChangePassword)
    } else if str_eq(command, "create-todo") || str_eq(command, "ct") {
        if nargs != 1 {
            return Err(ParseError::WrongArity(Verb::CreateTodo));
        }
        Ok(ReplCommand::CreateTodo(String::from_str(toks[1])))
    } else if str_eq(command, "search-todo") || str_eq(command, "st") {
        if nargs != 1 {
            return Err(ParseError::WrongArity(Verb::SearchTodo));
        }
        Ok(ReplCommand::SearchTodo(String::from_str(toks[1])))
    } else if str_eq(command, "edit-todo") || str_eq(command, "et") {
        if nargs != 2 {
            return Err(ParseError::WrongArity(Verb::EditTodo));
        }
        match parse_i32(toks[1]) {
            Some(id) => Ok(ReplCommand::EditTodo(id, String::from_str(toks[2]))),
            None => Err(ParseError::InvalidId(Verb::EditTodo)),
        }
    } else if str_eq(command, "delete-todo") || str_eq(command, "dt") {
        if nargs != 1 {
            return Err(ParseError::WrongArity(Verb::DeleteTodo));
        }
        match parse_i32(toks[1]) {
            Some(id) => Ok(ReplCommand::DeleteTodo(id)),
            None => Err(ParseError::InvalidId(Verb::DeleteTodo)),
        }
    } else if str_eq(command, "mark-todo-as-done") || str_eq(command, "md") {
        if nargs != 1 {
            return Err(ParseError::WrongArity(Verb::MarkTodoAsDone));
        }
        match parse_i32(toks[1]) {
            Some(id) => Ok(ReplCommand::MarkTodoAsDone(id)),
            None => Err(ParseError::InvalidId(Verb::MarkTodoAsDone)),
        }
    } else if str_eq(command, "list-all-todos") || str_eq(command, "lt") {
        if nargs != 0 {
            return Err(ParseError::WrongArity(Verb::ListAllTodos));
        }
        Ok(ReplCommand::ListAllTodos)
    } else if str_eq(command, "list-all-pending-todos") || str_eq(command, "lp") {
        if nargs != 0 {
            return Err(ParseError::WrongArity(Verb::ListAllPendingTodos));
        }
        Ok(ReplCommand::ListAllPendingTodos)
    } else if str_eq(command, "help") {
        if nargs != 0 {
            return Err(ParseError::WrongArity(Verb::Help));
        }
        Ok(ReplCommand::Help)
    } else if str_eq(command, "exit") {
        if nargs != 0 {
            return Err(ParseError::WrongArity(Verb::Exit));
        }
        Ok(ReplCommand::Exit)
    } else {
        Err(ParseError::UnknownCommand)
    }
}

/// Arity enforcement: a recognized verb given more or fewer arguments than
/// it takes always parses to the wrong-arity error naming that verb, never
/// to a command.
pub proof fn lemma_arity_enforced(toks: Seq<Seq<char>>, v: Verb)
    requires
        toks.len() > 0,
        verb_of(toks[0]) == Some(v),
        toks.len() - 1 != arity(v),
    ensures
        parse_spec(toks) == Err::<SpecCommand, ParseError>(ParseError::WrongArity(v)),
{
}

} // verus!
