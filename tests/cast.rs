use rooms::customers::{Customers, Gender};

#[test]
fn humans_are_indexed_by_id_text() {
    let c = Customers::new();
    let luke = c.human("1000").unwrap();
    assert_eq!(c.character(luke).unwrap().name(), "Luke Skywalker");
    assert_eq!(c.character(c.human("1004").unwrap()).unwrap().name(), "Wilhuff Tarkin");
    assert_eq!(c.human("2000"), None);
    assert_eq!(c.human(""), None);
    assert_eq!(c.human("10000"), None);
}

#[test]
fn humans_lists_the_five_humans() {
    let c = Customers::new();
    let mut names: Vec<&str> = c.humans().iter().map(|k| c.character(*k).unwrap().name()).collect();
    names.sort();
    assert_eq!(names, vec!["Anakin Skywalker", "Han Solo", "Leia Organa", "Luke Skywalker", "Wilhuff Tarkin"]);
}

#[test]
fn friendships_and_details() {
    let c = Customers::new();
    let luke = c.human("1000").unwrap();
    let friends: Vec<&str> = c.character(luke).unwrap().friends().iter().map(|k| c.character(*k).unwrap().name()).collect();
    assert_eq!(friends, vec!["Han Solo", "Leia Organa", "C-3PO", "R2-D2"]);
    let artoo = c.character(luke).unwrap().friends()[3];
    let r2 = c.character(artoo).unwrap();
    assert_eq!(r2.id(), "2001");
    assert_eq!(r2.primary_function(), Some("Astromech"));
    assert_eq!(r2.appears_in(), &vec![Gender::Female]);
    assert_eq!(r2.home_planet(), None);
    let tarkin = c.character(c.human("1004").unwrap()).unwrap();
    assert_eq!(tarkin.appears_in(), &vec![Gender::Female, Gender::Male]);
    assert_eq!(c.character(c.human("1003").unwrap()).unwrap().home_planet(), Some("Alderaa"));
    assert!(c.character(100).is_none());
}

#[test]
fn cast_keys_follow_insertion_order() {
    let c = Customers::new();
    assert_eq!(c.humans(), vec![0, 1, 2, 3, 4]);
    assert_eq!(c.human("1003"), Some(3));
    assert_eq!(c.human("2001"), None);
    let ids: Vec<&str> = (0..7).map(|k| c.character(k).unwrap().id()).collect();
    assert_eq!(ids, vec!["1000", "1001", "1002", "1003", "1004", "2000", "2001"]);
    let friends: Vec<Vec<usize>> = (0..7).map(|k| c.character(k).unwrap().friends().clone()).collect();
    assert_eq!(
        friends,
        vec![vec![2, 3, 5, 6], vec![4], vec![0, 3, 6], vec![0, 2, 5, 6], vec![1], vec![0, 2, 3, 6], vec![0, 2, 3]]
    );
    assert_eq!(c.character(5).unwrap().name(), "C-3PO");
}
