use chrono::{Local, NaiveDate, NaiveDateTime};
use todo::{Action, ArgumentIssue, Outcome, Task, TodoError, TodoList};

fn noon(minute: u32) -> NaiveDateTime {
    NaiveDate::from_ymd_opt(2024, 3, 9).unwrap().and_hms_opt(12, minute, 0).unwrap()
}

fn three_tasks() -> TodoList {
    let mut list = TodoList::new();
    for (n, title) in ["a", "b", "c"].into_iter().enumerate() {
        list.add_task_at(title, noon(n as u32)).unwrap();
    }
    list.complete_task_at(2, noon(30)).unwrap();
    list
}

fn listed_ids(outcome: Result<Outcome, TodoError>) -> Vec<usize> {
    match outcome {
        Ok(Outcome::Listed(tasks)) => tasks.iter().map(|t| t.id).collect(),
        other => panic!("not a listing: {:?}", other),
    }
}

#[test]
fn apply_add() {
    let mut list = three_tasks();
    let outcome = list.apply_at(&Action::Add("d".to_string()), noon(40));
    let expected = Task {
        id: 4,
        title: "d".to_string(),
        completed: false,
        created_at: noon(40),
        completed_at: None,
    };
    assert_eq!(outcome, Ok(Outcome::Added(expected.clone())));
    assert_eq!(list.tasks().len(), 4);
    assert_eq!(list.tasks()[3], expected);
    assert_eq!(list.next_id(), 5);
}

#[test]
fn apply_add_with_an_empty_title() {
    let mut list = three_tasks();
    let outcome = list.apply_at(&Action::Add(String::new()), noon(40));
    assert_eq!(outcome, Err(TodoError::InvalidArgument(ArgumentIssue::EmptyTitle)));
    assert_eq!(list, three_tasks());
}

#[test]
fn apply_complete() {
    let mut list = three_tasks();
    assert_eq!(list.apply_at(&Action::Complete(3), noon(41)), Ok(Outcome::Completed(3)));
    assert!(list.tasks()[2].completed);
    assert_eq!(list.tasks()[2].completed_at, Some(noon(41)));
    assert_eq!(list.apply_at(&Action::Complete(9), noon(42)), Err(TodoError::NotFound(9)));
}

#[test]
fn apply_delete() {
    let mut list = three_tasks();
    assert_eq!(list.apply_at(&Action::Delete(1), noon(41)), Ok(Outcome::Deleted(1)));
    assert_eq!(listed_ids(list.apply_at(&Action::ListAll, noon(42))), vec![2, 3]);
    assert_eq!(list.apply_at(&Action::Delete(1), noon(43)), Err(TodoError::NotFound(1)));
    assert_eq!(list.next_id(), 4);
}

#[test]
fn apply_list_shows_pending_tasks_and_changes_nothing() {
    let mut list = three_tasks();
    let outcome = list.apply_at(&Action::List, noon(50));
    match &outcome {
        Ok(Outcome::Listed(tasks)) => {
            assert_eq!(tasks.len(), 2);
            assert_eq!(tasks[0], list.tasks()[0]);
            assert_eq!(tasks[1], list.tasks()[2]);
        }
        other => panic!("not a listing: {:?}", other),
    }
    assert_eq!(listed_ids(outcome), vec![1, 3]);
    assert_eq!(list, three_tasks());
}

#[test]
fn apply_list_all_shows_every_task() {
    let mut list = three_tasks();
    let outcome = list.apply_at(&Action::ListAll, noon(50));
    assert_eq!(outcome, Ok(Outcome::Listed(three_tasks().tasks().clone())));
    assert_eq!(list, three_tasks());
}

#[test]
fn apply_reads_the_clock() {
    let mut list = TodoList::new();
    let before = Local::now().naive_utc();
    let added = list.apply(&Action::Add("now".to_string()));
    let completed = list.apply(&Action::Complete(1));
    let after = Local::now().naive_utc();
    match added {
        Ok(Outcome::Added(task)) => {
            assert_eq!(task.id, 1);
            assert!(before <= task.created_at && task.created_at <= after);
        }
        other => panic!("not added: {:?}", other),
    }
    assert_eq!(completed, Ok(Outcome::Completed(1)));
    let stamp = list.tasks()[0].completed_at.unwrap();
    assert!(list.tasks()[0].created_at <= stamp && stamp <= after);
    assert_eq!(list.apply(&Action::Delete(1)), Ok(Outcome::Deleted(1)));
    assert_eq!(list.apply(&Action::List), Ok(Outcome::Listed(Vec::new())));
}
