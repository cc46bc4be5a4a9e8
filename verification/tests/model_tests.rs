use todo_app::model::ContentError;
use todo_app::model::Todo;
use todo_app::model::TodoContent;
use todo_app::model::TodoId;
use todo_app::model::UserId;

#[test]
fn content_is_trimmed_on_construction() {
    let c = TodoContent::try_from(String::from("  Buy milk  ")).unwrap();
    assert_eq!(c.as_str(), "Buy milk");
}

#[test]
fn blank_content_is_rejected() {
    let e = TodoContent::try_from(String::from("")).unwrap_err();
    assert_eq!(e, ContentError::Blank);
    assert_eq!(e.message(), "Todo content cannot be blank");
}

#[test]
fn whitespace_only_content_is_rejected_as_blank() {
    let e = TodoContent::try_from(String::from(" \t\n  ")).unwrap_err();
    assert_eq!(e, ContentError::Blank);
}

#[test]
fn content_of_501_characters_is_rejected() {
    let e = TodoContent::try_from("x".repeat(501)).unwrap_err();
    assert_eq!(e, ContentError::TooLong);
    assert_eq!(
        e.message(),
        "Todo content cannot be longer than 500 characters"
    );
}

#[test]
fn content_of_500_characters_is_accepted() {
    let c = TodoContent::try_from("x".repeat(500)).unwrap();
    assert_eq!(c.as_str().chars().count(), 500);
}

#[test]
fn content_of_one_character_is_accepted() {
    let c = TodoContent::try_from(String::from("a")).unwrap();
    assert_eq!(c.as_str(), "a");
}

#[test]
fn padding_does_not_count_against_the_limit() {
    let padded = format!("  {}  ", "x".repeat(500));
    let c = TodoContent::try_from(padded).unwrap();
    assert_eq!(c.as_str().chars().count(), 500);
}

#[test]
fn unicode_whitespace_is_trimmed() {
    let c = TodoContent::try_from(String::from("\u{3000}\u{00a0}milk\u{2028} ")).unwrap();
    assert_eq!(c.as_str(), "milk");
}

#[test]
fn inner_whitespace_is_kept() {
    let c = TodoContent::try_from(String::from(" a  b ")).unwrap();
    assert_eq!(c.as_str(), "a  b");
}

#[test]
fn todo_id_canonical_text_form() {
    let id = TodoId::from_value(0xa1a2a3a4b1b2c1c2d1d2d3d4d5d6d7d8u128);
    assert_eq!(id.as_text(), "a1a2a3a4-b1b2-c1c2-d1d2-d3d4d5d6d7d8");
}

#[test]
fn todo_id_text_of_zero() {
    let id = TodoId::from_value(0);
    assert_eq!(id.as_text(), "00000000-0000-0000-0000-000000000000");
}

#[test]
fn fresh_todo_ids_differ() {
    let a = TodoId::new();
    let b = TodoId::new();
    assert_ne!(a.value(), b.value());
    assert_eq!(a.as_text().len(), 36);
}

#[test]
fn new_todo_has_expected_fields() {
    let content = TodoContent::try_from(String::from("  Buy milk  ")).unwrap();
    let t = Todo::new(content, UserId::from(String::from("u1")));
    assert_eq!(t.content(), "Buy milk");
    assert!(!t.is_done());
    assert_eq!(t.created_by().as_str(), "u1");
}

#[test]
fn marking_done_twice_is_idempotent() {
    let content = TodoContent::try_from(String::from("task")).unwrap();
    let mut t = Todo::new(content, UserId::from(String::from("u1")));
    t.mark_as_done();
    t.mark_as_done();
    assert!(t.is_done());
    t.mark_as_unfinished();
    assert!(!t.is_done());
}

#[test]
fn update_content_replaces_only_the_content() {
    let content = TodoContent::try_from(String::from("old")).unwrap();
    let mut t = Todo::new(content, UserId::from(String::from("u1")));
    let id = t.id();
    t.mark_as_done();
    t.update_content(TodoContent::try_from(String::from("new")).unwrap());
    assert_eq!(t.content(), "new");
    assert!(t.is_done());
    assert_eq!(t.id(), id);
    assert_eq!(t.created_by().as_str(), "u1");
}

#[test]
fn user_id_round_trip() {
    let u = UserId::from(String::from("alice"));
    assert_eq!(u.as_str(), "alice");
    assert!(u.same_user(&UserId::from(String::from("alice"))));
    assert!(!u.same_user(&UserId::from(String::from("bob"))));
    assert_eq!(u.into_string(), "alice");
}
