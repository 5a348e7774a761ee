use todo_shell::command::{parse_repl_command, ParseError, ReplCommand, Verb};

#[test]
fn parse_create_user_long_and_short() {
    assert_eq!(
        parse_repl_command("create-user alice secret"),
        Ok(ReplCommand::CreateUser("alice".to_string(), "secret".to_string()))
    );
    assert_eq!(
        parse_repl_command("cu alice secret"),
        Ok(ReplCommand::CreateUser("alice".to_string(), "secret".to_string()))
    );
}

#[test]
fn parse_change_password_takes_one_token() {
    assert_eq!(parse_repl_command("change-password now"), Ok(ReplCommand::ChangePassword));
    assert_eq!(parse_repl_command("cp now"), Ok(ReplCommand::ChangePassword));
}

#[test]
fn parse_create_todo_with_quoted_description() {
    assert_eq!(
        parse_repl_command("create-todo \"write report\""),
        Ok(ReplCommand::CreateTodo("write report".to_string()))
    );
    assert_eq!(parse_repl_command("ct chores"), Ok(ReplCommand::CreateTodo("chores".to_string())));
}

#[test]
fn parse_search_and_edit_and_delete_and_mark() {
    assert_eq!(
        parse_repl_command("search-todo milk"),
        Ok(ReplCommand::SearchTodo("milk".to_string()))
    );
    assert_eq!(
        parse_repl_command("et 7 'new text'"),
        Ok(ReplCommand::EditTodo(7, "new text".to_string()))
    );
    assert_eq!(parse_repl_command("delete-todo 3"), Ok(ReplCommand::DeleteTodo(3)));
    assert_eq!(parse_repl_command("md 12"), Ok(ReplCommand::MarkTodoAsDone(12)));
}

#[test]
fn parse_zero_argument_verbs() {
    assert_eq!(parse_repl_command("list-all-todos"), Ok(ReplCommand::ListAllTodos));
    assert_eq!(parse_repl_command("lt"), Ok(ReplCommand::ListAllTodos));
    assert_eq!(parse_repl_command("lp"), Ok(ReplCommand::ListAllPendingTodos));
    assert_eq!(parse_repl_command("help"), Ok(ReplCommand::Help));
    assert_eq!(parse_repl_command("exit"), Ok(ReplCommand::Exit));
}

#[test]
fn arity_one_fewer_argument_is_an_error_for_every_verb() {
    assert_eq!(
        parse_repl_command("create-user alice"),
        Err(ParseError::WrongArity(Verb::CreateUser))
    );
    assert_eq!(
        parse_repl_command("change-password"),
        Err(ParseError::WrongArity(Verb::ChangePassword))
    );
    assert_eq!(parse_repl_command("create-todo"), Err(ParseError::WrongArity(Verb::CreateTodo)));
    assert_eq!(parse_repl_command("search-todo"), Err(ParseError::WrongArity(Verb::SearchTodo)));
    assert_eq!(parse_repl_command("edit-todo 7"), Err(ParseError::WrongArity(Verb::EditTodo)));
    assert_eq!(parse_repl_command("delete-todo"), Err(ParseError::WrongArity(Verb::DeleteTodo)));
    assert_eq!(
        parse_repl_command("mark-todo-as-done"),
        Err(ParseError::WrongArity(Verb::MarkTodoAsDone))
    );
}

#[test]
fn arity_one_extra_argument_is_an_error_for_every_verb() {
    assert_eq!(
        parse_repl_command("create-user alice secret extra"),
        Err(ParseError::WrongArity(Verb::CreateUser))
    );
    assert_eq!(
        parse_repl_command("cp token extra"),
        Err(ParseError::WrongArity(Verb::ChangePassword))
    );
    assert_eq!(
        parse_repl_command("create-todo one two"),
        Err(ParseError::WrongArity(Verb::CreateTodo))
    );
    assert_eq!(
        parse_repl_command("st needle extra"),
        Err(ParseError::WrongArity(Verb::SearchTodo))
    );
    assert_eq!(
        parse_repl_command("edit-todo 7 text extra"),
        Err(ParseError::WrongArity(Verb::EditTodo))
    );
    assert_eq!(parse_repl_command("dt 3 4"), Err(ParseError::WrongArity(Verb::DeleteTodo)));
    assert_eq!(
        parse_repl_command("md 12 13"),
        Err(ParseError::WrongArity(Verb::MarkTodoAsDone))
    );
    assert_eq!(
        parse_repl_command("list-all-todos now"),
        Err(ParseError::WrongArity(Verb::ListAllTodos))
    );
    assert_eq!(
        parse_repl_command("list-all-pending-todos now"),
        Err(ParseError::WrongArity(Verb::ListAllPendingTodos))
    );
    assert_eq!(parse_repl_command("help me"), Err(ParseError::WrongArity(Verb::Help)));
    assert_eq!(parse_repl_command("exit now"), Err(ParseError::WrongArity(Verb::Exit)));
}

#[test]
fn non_integer_id_is_an_invalid_id_error_naming_the_verb() {
    assert_eq!(parse_repl_command("edit-todo seven text"), Err(ParseError::InvalidId(Verb::EditTodo)));
    assert_eq!(parse_repl_command("delete-todo 1x"), Err(ParseError::InvalidId(Verb::DeleteTodo)));
    assert_eq!(
        parse_repl_command("mark-todo-as-done ''"),
        Err(ParseError::InvalidId(Verb::MarkTodoAsDone))
    );
}

#[test]
fn id_arguments_cover_the_whole_i32_range_and_no_more() {
    assert_eq!(parse_repl_command("delete-todo -5"), Ok(ReplCommand::DeleteTodo(-5)));
    assert_eq!(parse_repl_command("delete-todo +8"), Ok(ReplCommand::DeleteTodo(8)));
    assert_eq!(
        parse_repl_command("delete-todo 2147483647"),
        Ok(ReplCommand::DeleteTodo(2147483647))
    );
    assert_eq!(
        parse_repl_command("delete-todo -2147483648"),
        Ok(ReplCommand::DeleteTodo(-2147483648))
    );
    assert_eq!(
        parse_repl_command("delete-todo 2147483648"),
        Err(ParseError::InvalidId(Verb::DeleteTodo))
    );
    assert_eq!(
        parse_repl_command("delete-todo -2147483649"),
        Err(ParseError::InvalidId(Verb::DeleteTodo))
    );
}

#[test]
fn empty_line_and_unknown_verb_are_distinct_errors() {
    assert_eq!(parse_repl_command(""), Err(ParseError::EmptyLine));
    assert_eq!(parse_repl_command("   "), Err(ParseError::UnknownCommand));
    assert_eq!(parse_repl_command("frobnicate"), Err(ParseError::UnknownCommand));
    // Verbs are case-sensitive.
    assert_eq!(parse_repl_command("Exit"), Err(ParseError::UnknownCommand));
}
