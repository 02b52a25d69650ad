use qubitum_protocol::authors::{AuthorityId, MockFindAuthors};

fn author(n: u8) -> AuthorityId {
    [n; 32]
}

fn unset() -> MockFindAuthors {
    MockFindAuthors { current: None, next_next: None }
}

#[test]
fn explicit_authors_take_precedence() {
    let finder = MockFindAuthors { current: Some(author(7)), next_next: Some(Some(author(9))) };
    let authorities = vec![author(1), author(2)];
    assert_eq!(finder.find_current_author(Some(0), &authorities), Some(author(7)));
    assert_eq!(finder.find_current_author(None, &Vec::new()), Some(author(7)));
    assert_eq!(finder.find_next_next_author(Some(0), &authorities), Some(author(9)));
    let none_ahead = MockFindAuthors { current: None, next_next: Some(None) };
    assert_eq!(none_ahead.find_next_next_author(Some(0), &authorities), None);
}

#[test]
fn round_robin_authors_follow_the_slot() {
    let authorities = vec![author(1), author(2), author(3)];
    let finder = unset();
    assert_eq!(finder.find_current_author(Some(0), &authorities), Some(author(1)));
    assert_eq!(finder.find_current_author(Some(4), &authorities), Some(author(2)));
    assert_eq!(finder.find_next_next_author(Some(4), &authorities), Some(author(1)));
    assert_eq!(finder.find_next_next_author(Some(2), &authorities), Some(author(2)));
}

#[test]
fn unknown_slot_or_overflow_gives_no_author() {
    let authorities = vec![author(1)];
    let finder = unset();
    assert_eq!(finder.find_current_author(None, &authorities), None);
    assert_eq!(finder.find_next_next_author(None, &authorities), None);
    assert_eq!(finder.find_next_next_author(Some(u64::MAX - 1), &authorities), None);
    assert_eq!(finder.find_next_next_author(Some(u64::MAX - 2), &authorities), Some(author(1)));
}
