use jira_store::{DBState, DbError, Epic, Status, Story};

#[test]
fn new_state_is_empty() {
    let s = DBState::new();
    assert_eq!(s.last_item_id, 0);
    assert!(s.epics.is_empty());
    assert!(s.stories.is_empty());
}

#[test]
fn epic_and_story_new_are_open_and_keep_fields() {
    let e = Epic::new("name".to_owned(), "desc".to_owned());
    assert_eq!(e.name, "name");
    assert_eq!(e.description, "desc");
    assert_eq!(e.status, Status::Open);
    assert!(e.stories.is_empty());
    let s = Story::new("sname".to_owned(), "sdesc".to_owned());
    assert_eq!(s.name, "sname");
    assert_eq!(s.description, "sdesc");
    assert_eq!(s.status, Status::Open);
}

#[test]
fn consecutive_epics_get_consecutive_ids() {
    let mut s = DBState::new();
    let a = s.create_epic(Epic::new("a".to_owned(), "".to_owned())).unwrap();
    let b = s.create_epic(Epic::new("b".to_owned(), "".to_owned())).unwrap();
    let c = s.create_epic(Epic::new("c".to_owned(), "".to_owned())).unwrap();
    assert_eq!((a, b, c), (1, 2, 3));
    assert_eq!(s.last_item_id, 3);
    assert_eq!(s.epics.get(&2).unwrap().name, "b");
}

#[test]
fn ids_are_not_reused_after_delete() {
    let mut s = DBState::new();
    let a = s.create_epic(Epic::new("a".to_owned(), "".to_owned())).unwrap();
    s.delete_epic(a).unwrap();
    let b = s.create_epic(Epic::new("b".to_owned(), "".to_owned())).unwrap();
    assert_eq!(b, 2);
    assert!(s.epics.get(&1).is_none());
}

#[test]
fn create_story_on_missing_epic_leaves_state_unchanged() {
    let mut s = DBState::new();
    s.create_epic(Epic::new("a".to_owned(), "".to_owned())).unwrap();
    let before = s.clone();
    let r = s.create_story(Story::new("x".to_owned(), "".to_owned()), 7);
    assert_eq!(r, Err(DbError::EpicNotFound(7)));
    assert_eq!(s, before);
}

#[test]
fn create_story_appends_id_once_at_end() {
    let mut s = DBState::new();
    let e = s.create_epic(Epic::new("a".to_owned(), "".to_owned())).unwrap();
    let s1 = s.create_story(Story::new("x".to_owned(), "".to_owned()), e).unwrap();
    let s2 = s.create_story(Story::new("y".to_owned(), "".to_owned()), e).unwrap();
    assert_eq!(s.epics.get(&e).unwrap().stories, vec![s1, s2]);
    assert_eq!(s.stories.get(&s2).unwrap().name, "y");
    assert_eq!(s.last_item_id, 3);
}

#[test]
fn counter_at_largest_value_is_exhausted() {
    let mut s = DBState::new();
    s.last_item_id = u32::MAX;
    let before = s.clone();
    assert_eq!(
        s.create_epic(Epic::new("a".to_owned(), "".to_owned())),
        Err(DbError::IdsExhausted)
    );
    assert_eq!(s, before);
}

#[test]
fn create_story_with_exhausted_counter_fails() {
    let mut s = DBState::new();
    s.create_epic(Epic::new("a".to_owned(), "".to_owned())).unwrap();
    s.last_item_id = u32::MAX;
    let before = s.clone();
    let r = s.create_story(Story::new("x".to_owned(), "".to_owned()), 1);
    assert_eq!(r, Err(DbError::IdsExhausted));
    assert_eq!(s, before);
}

#[test]
fn delete_epic_removes_its_stories_only() {
    let mut s = DBState::new();
    let e1 = s.create_epic(Epic::new("a".to_owned(), "".to_owned())).unwrap();
    let e2 = s.create_epic(Epic::new("b".to_owned(), "".to_owned())).unwrap();
    let x = s.create_story(Story::new("x".to_owned(), "".to_owned()), e1).unwrap();
    let y = s.create_story(Story::new("y".to_owned(), "".to_owned()), e2).unwrap();
    let z = s.create_story(Story::new("z".to_owned(), "".to_owned()), e1).unwrap();
    s.delete_epic(e1).unwrap();
    assert!(s.epics.get(&e1).is_none());
    assert!(s.stories.get(&x).is_none());
    assert!(s.stories.get(&z).is_none());
    assert_eq!(s.stories.get(&y).unwrap().name, "y");
    assert_eq!(s.epics.get(&e2).unwrap().stories, vec![y]);
    assert_eq!(s.last_item_id, 5);
}

#[test]
fn delete_missing_epic_leaves_state_unchanged() {
    let mut s = DBState::new();
    s.create_epic(Epic::new("a".to_owned(), "".to_owned())).unwrap();
    let before = s.clone();
    assert_eq!(s.delete_epic(42), Err(DbError::EpicNotFound(42)));
    assert_eq!(s, before);
}

#[test]
fn delete_story_checks_both_ids_before_changing() {
    let mut s = DBState::new();
    let e = s.create_epic(Epic::new("a".to_owned(), "".to_owned())).unwrap();
    let x = s.create_story(Story::new("x".to_owned(), "".to_owned()), e).unwrap();
    let before = s.clone();
    assert_eq!(s.delete_story(999, x), Err(DbError::EpicNotFound(999)));
    assert_eq!(s, before);
    assert_eq!(s.delete_story(e, 999), Err(DbError::StoryNotFound(999)));
    assert_eq!(s, before);
    assert_eq!(s.delete_story(999, 998), Err(DbError::StoryNotFound(998)));
    assert_eq!(s, before);
}

#[test]
fn delete_story_keeps_order_of_other_stories() {
    let mut s = DBState::new();
    let e = s.create_epic(Epic::new("a".to_owned(), "".to_owned())).unwrap();
    let x = s.create_story(Story::new("x".to_owned(), "".to_owned()), e).unwrap();
    let y = s.create_story(Story::new("y".to_owned(), "".to_owned()), e).unwrap();
    let z = s.create_story(Story::new("z".to_owned(), "".to_owned()), e).unwrap();
    s.delete_story(e, y).unwrap();
    assert_eq!(s.epics.get(&e).unwrap().stories, vec![x, z]);
    assert!(s.stories.get(&y).is_none());
    assert_eq!(s.last_item_id, 4);
}

#[test]
fn status_updates_overwrite_any_status() {
    let mut s = DBState::new();
    let e = s.create_epic(Epic::new("a".to_owned(), "".to_owned())).unwrap();
    let x = s.create_story(Story::new("x".to_owned(), "".to_owned()), e).unwrap();
    s.update_epic_status(e, Status::Resolved).unwrap();
    s.update_epic_status(e, Status::InProgress).unwrap();
    s.update_story_status(x, Status::Closed).unwrap();
    s.update_story_status(x, Status::Open).unwrap();
    assert_eq!(s.epics.get(&e).unwrap().status, Status::InProgress);
    assert_eq!(s.stories.get(&x).unwrap().status, Status::Open);
    assert_eq!(s.update_epic_status(x, Status::Closed), Err(DbError::EpicNotFound(x)));
    assert_eq!(s.update_story_status(e, Status::Closed), Err(DbError::StoryNotFound(e)));
}

#[test]
fn duplicate_keeps_content() {
    let mut s = DBState::new();
    let e = s.create_epic(Epic::new("a".to_owned(), "d".to_owned())).unwrap();
    s.create_story(Story::new("x".to_owned(), "".to_owned()), e).unwrap();
    assert_eq!(s.duplicate(), s);
}

#[test]
fn status_from_choice_maps_menu_numbers() {
    assert_eq!(Status::from_choice(1), Some(Status::Open));
    assert_eq!(Status::from_choice(2), Some(Status::InProgress));
    assert_eq!(Status::from_choice(3), Some(Status::Resolved));
    assert_eq!(Status::from_choice(4), Some(Status::Closed));
    assert_eq!(Status::from_choice(0), None);
    assert_eq!(Status::from_choice(5), None);
}

#[test]
fn delete_story_through_an_epic_that_does_not_list_it_fails() {
    let mut s = DBState::new();
    let e1 = s.create_epic(Epic::new("a".to_owned(), "".to_owned())).unwrap();
    let e2 = s.create_epic(Epic::new("b".to_owned(), "".to_owned())).unwrap();
    let x = s.create_story(Story::new("x".to_owned(), "".to_owned()), e1).unwrap();
    let before = s.clone();
    assert_eq!(s.delete_story(e2, x), Err(DbError::StoryNotFound(x)));
    assert_eq!(s, before);
    assert_eq!(s.epics.get(&e1).unwrap().stories, vec![x]);
    assert!(s.stories.get(&x).is_some());
}
