use todo::{parse_command, Action, ArgumentIssue, Command, TodoError};

fn args(list: &[&str]) -> Vec<String> {
    list.iter().map(|w| w.to_string()).collect()
}

#[test]
fn no_arguments_ask_for_help() {
    assert_eq!(parse_command(&args(&[])), Ok(Command::Help));
}

#[test]
fn help_command() {
    assert_eq!(parse_command(&args(&["help"])), Ok(Command::Help));
    assert_eq!(parse_command(&args(&["help", "add"])), Ok(Command::Help));
}

#[test]
fn add_joins_its_words() {
    assert_eq!(
        parse_command(&args(&["add", "buy", "milk"])),
        Ok(Command::Run(Action::Add("buy milk".to_string())))
    );
    assert_eq!(
        parse_command(&args(&["add", "walk dog"])),
        Ok(Command::Run(Action::Add("walk dog".to_string())))
    );
    assert_eq!(
        parse_command(&args(&["add", "a", "", "b"])),
        Ok(Command::Run(Action::Add("a  b".to_string())))
    );
}

#[test]
fn add_with_an_empty_word_is_left_to_the_list() {
    assert_eq!(parse_command(&args(&["add", ""])), Ok(Command::Run(Action::Add(String::new()))));
}

#[test]
fn add_without_text() {
    assert_eq!(
        parse_command(&args(&["add"])),
        Err(TodoError::InvalidArgument(ArgumentIssue::MissingDescription))
    );
}

#[test]
fn complete_and_delete_take_an_id() {
    assert_eq!(parse_command(&args(&["complete", "3"])), Ok(Command::Run(Action::Complete(3))));
    assert_eq!(parse_command(&args(&["delete", "12"])), Ok(Command::Run(Action::Delete(12))));
    assert_eq!(parse_command(&args(&["complete", "0"])), Ok(Command::Run(Action::Complete(0))));
    assert_eq!(parse_command(&args(&["delete", "+4"])), Ok(Command::Run(Action::Delete(4))));
}

#[test]
fn complete_and_delete_ignore_what_follows_the_id() {
    assert_eq!(parse_command(&args(&["complete", "3", "x"])), Ok(Command::Run(Action::Complete(3))));
    assert_eq!(parse_command(&args(&["delete", "3", "4"])), Ok(Command::Run(Action::Delete(3))));
}

#[test]
fn complete_and_delete_without_an_id() {
    assert_eq!(
        parse_command(&args(&["complete"])),
        Err(TodoError::InvalidArgument(ArgumentIssue::MissingId))
    );
    assert_eq!(
        parse_command(&args(&["delete"])),
        Err(TodoError::InvalidArgument(ArgumentIssue::MissingId))
    );
}

#[test]
fn complete_and_delete_with_an_id_that_is_no_number() {
    for word in ["abc", "-1", "", "1.5", "3x", " 3"] {
        assert_eq!(
            parse_command(&args(&["complete", word])),
            Err(TodoError::InvalidArgument(ArgumentIssue::IdNotANumber))
        );
        assert_eq!(
            parse_command(&args(&["delete", word])),
            Err(TodoError::InvalidArgument(ArgumentIssue::IdNotANumber))
        );
    }
    let too_large = format!("{}0", usize::MAX);
    assert_eq!(
        parse_command(&args(&["delete", &too_large])),
        Err(TodoError::InvalidArgument(ArgumentIssue::IdNotANumber))
    );
}

#[test]
fn list_commands() {
    assert_eq!(parse_command(&args(&["list"])), Ok(Command::Run(Action::List)));
    assert_eq!(parse_command(&args(&["list-all"])), Ok(Command::Run(Action::ListAll)));
    assert_eq!(parse_command(&args(&["list", "all"])), Ok(Command::Run(Action::List)));
}

#[test]
fn unknown_commands() {
    for word in ["frobnicate", "", "Add", "LIST", "list_all", "listall", "adds", "ad", " add", "--help"] {
        assert_eq!(parse_command(&args(&[word])), Ok(Command::Unknown(word.to_string())));
        assert_eq!(parse_command(&args(&[word, "1"])), Ok(Command::Unknown(word.to_string())));
    }
}
