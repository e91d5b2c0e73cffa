use tbg::data::PlayersList;
use tbg::error::TBGError;

#[test]
fn new_list_is_empty() {
    let list: PlayersList<u8> = PlayersList::new();
    assert_eq!(list.len(), 0);
    assert!(!list.contains_player(String::from("ann")));
    assert!(list.player_ids().is_empty());
}

#[test]
fn players_join_under_the_ids_given() {
    let mut list: PlayersList<u8> = PlayersList::new();
    assert_eq!(list.add_player(String::from("ann"), 0, Some(1)), Ok(0));
    assert_eq!(list.add_player(String::from("bob"), 1, None), Ok(1));
    assert_eq!(list.len(), 2);
    let p = list.get_player(1).unwrap();
    assert_eq!(p.name, "bob");
    assert_eq!(p.id, 1);
    assert!(!p.start_game);
    assert_eq!(p.data, None);
    assert_eq!(list.get_player(0).unwrap().data, Some(1));
}

#[test]
fn joined_player_is_found() {
    let mut list: PlayersList<u8> = PlayersList::new();
    list.add_player(String::from("ann"), 40, None).unwrap();
    assert!(list.contains_player(String::from("ann")));
    assert!(!list.contains_player(String::from("Ann")));
}

#[test]
fn duplicate_name_is_refused_and_changes_nothing() {
    let mut list: PlayersList<u8> = PlayersList::new();
    list.add_player(String::from("ann"), 0, None).unwrap();
    assert_eq!(list.add_player(String::from("ann"), 1, Some(9)), Err(TBGError::DuplicateEntry));
    assert_eq!(list.len(), 1);
    assert_eq!(list.get_player(0).unwrap().data, None);
    assert!(list.get_player(1).is_none());
}

#[test]
fn remove_gives_the_player_back() {
    let mut list: PlayersList<u8> = PlayersList::new();
    list.add_player(String::from("ann"), 0, Some(4)).unwrap();
    let p = list.remove_player(0).unwrap();
    assert_eq!(p.name, "ann");
    assert_eq!(p.data, Some(4));
    assert_eq!(list.len(), 0);
    assert!(!list.contains_player(String::from("ann")));
    assert!(matches!(list.remove_player(0), Err(TBGError::InvalidID)));
}

#[test]
fn join_then_remove_restores_list() {
    let mut list: PlayersList<u8> = PlayersList::new();
    list.add_player(String::from("ann"), 0, None).unwrap();
    let id = list.add_player(String::from("bob"), 1, Some(3)).unwrap();
    let p = list.remove_player(id).unwrap();
    assert_eq!((p.name.as_str(), p.id, p.start_game, p.data), ("bob", 1, false, Some(3)));
    assert_eq!(list.len(), 1);
    assert!(list.contains_player(String::from("ann")));
    assert!(!list.contains_player(String::from("bob")));
    assert_eq!(list.player_ids(), vec![0]);
}

#[test]
fn vote_is_recorded() {
    let mut list: PlayersList<u8> = PlayersList::new();
    list.add_player(String::from("ann"), 0, None).unwrap();
    list.set_start_game(0, true);
    assert!(list.get_player(0).unwrap().start_game);
    assert_eq!(list.get_player(0).unwrap().name, "ann");
}

#[test]
fn serialization_lists_every_player_once() {
    let mut list: PlayersList<u8> = PlayersList::new();
    for (id, (name, data)) in [("ann", 1u8), ("bob", 2), ("cy", 3)].into_iter().enumerate() {
        list.add_player(String::from(name), id, Some(data)).unwrap();
    }
    let mut without = list.serialize_players(false);
    without.sort_by(|a, b| a.name.cmp(&b.name));
    let names: Vec<&str> = without.iter().map(|p| p.name.as_str()).collect();
    assert_eq!(names, vec!["ann", "bob", "cy"]);
    assert!(without.iter().all(|p| p.data.is_none()));

    let mut with = list.serialize_players(true);
    with.sort_by(|a, b| a.name.cmp(&b.name));
    let data: Vec<Option<Option<u8>>> = with.iter().map(|p| p.data).collect();
    assert_eq!(data, vec![Some(Some(1)), Some(Some(2)), Some(Some(3))]);
}

#[test]
fn player_ids_cover_the_list() {
    let mut list: PlayersList<u8> = PlayersList::new();
    for (id, name) in ["a", "b", "c", "d"].into_iter().enumerate() {
        list.add_player(String::from(name), id, None).unwrap();
    }
    list.remove_player(2).unwrap();
    let mut ids = list.player_ids();
    ids.sort();
    assert_eq!(ids, vec![0, 1, 3]);
}
