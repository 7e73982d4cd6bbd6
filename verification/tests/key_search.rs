use sync_core::Board;
use sync_core::KeyGrant;
use sync_core::KeyType;
use sync_core::Keychain;
use sync_core::Keyfinder;
use sync_core::Profile;
use sync_core::ProfileEntry;

fn space_entry(id: &str, key: Option<Vec<u8>>) -> ProfileEntry {
    ProfileEntry { id: Some(id.to_string()), key }
}

fn board_with_space(space_id: Option<&str>, grants: Option<Vec<KeyGrant>>) -> Board {
    Board {
        id: Some("b-under-test".to_string()),
        user_id: Some("user1".to_string()),
        space_id: space_id.map(|s| s.to_string()),
        keys: grants,
        title: None,
    }
}

#[test]
fn direct_owner_key_resolves() {
    let board = board_with_space(Some("space1"), None);
    let profile = Profile {
        spaces: vec![space_entry("space1", Some(vec![1, 2, 3]))],
        boards: vec![],
    };
    let kc = board.get_key_search(&profile);
    assert_eq!(kc.len(), 1);
    let entry = kc.entry_at(0);
    assert_eq!(entry.owner_id, "space1".to_string());
    assert_eq!(entry.key, vec![1, 2, 3]);
    assert!(matches!(entry.ty, KeyType::Space));
}

#[test]
fn unknown_owner_yields_nothing() {
    let board = board_with_space(Some("space-unknown"), None);
    let profile = Profile {
        spaces: vec![space_entry("space1", Some(vec![1, 2, 3]))],
        boards: vec![],
    };
    let kc = board.get_key_search(&profile);
    assert_eq!(kc.len(), 0);
}

#[test]
fn keyless_owner_yields_nothing() {
    let board = board_with_space(Some("space1"), None);
    let profile = Profile {
        spaces: vec![space_entry("space1", None)],
        boards: vec![],
    };
    let kc = board.get_key_search(&profile);
    assert_eq!(kc.len(), 0);
}

#[test]
fn board_grant_resolves_cached_board_key() {
    let grants = vec![KeyGrant { tag: KeyType::Board, id: "board1".to_string() }];
    let board = board_with_space(None, Some(grants));
    let profile = Profile {
        spaces: vec![],
        boards: vec![space_entry("board1", Some(vec![9, 9]))],
    };
    let kc = board.get_key_search(&profile);
    assert_eq!(kc.len(), 1);
    let entry = kc.entry_at(0);
    assert_eq!(entry.owner_id, "board1".to_string());
    assert_eq!(entry.key, vec![9, 9]);
    assert!(matches!(entry.ty, KeyType::Board));
}

#[test]
fn unrelated_grant_ids_produce_nothing() {
    let grants = vec![KeyGrant { tag: KeyType::Board, id: "board-other".to_string() }];
    let board = board_with_space(None, Some(grants));
    let profile = Profile {
        spaces: vec![],
        boards: vec![space_entry("board1", Some(vec![9, 9]))],
    };
    let kc = board.get_key_search(&profile);
    assert_eq!(kc.len(), 0);
}

#[test]
fn direct_owner_comes_before_granted_spaces() {
    let grants = vec![
        KeyGrant { tag: KeyType::Space, id: "space2".to_string() },
        KeyGrant { tag: KeyType::Board, id: "board1".to_string() },
    ];
    let board = board_with_space(Some("space1"), Some(grants));
    let profile = Profile {
        spaces: vec![
            space_entry("space1", Some(vec![1])),
            space_entry("space2", Some(vec![2])),
        ],
        boards: vec![space_entry("board1", Some(vec![3]))],
    };
    let kc = board.get_key_search(&profile);
    assert_eq!(kc.len(), 3);
    assert_eq!(kc.entry_at(0).owner_id, "space1".to_string());
    assert_eq!(kc.entry_at(1).owner_id, "space2".to_string());
    assert_eq!(kc.entry_at(2).owner_id, "board1".to_string());
    assert!(matches!(kc.entry_at(2).ty, KeyType::Board));
}

#[test]
fn latest_added_key_supersedes_earlier_one() {
    let mut kc = Keychain::new();
    kc.add_key("owner1".to_string(), vec![1], KeyType::Space);
    kc.add_key("owner1".to_string(), vec![2], KeyType::Space);
    kc.add_key("owner1".to_string(), vec![3], KeyType::Board);
    assert_eq!(kc.len(), 3);
    assert_eq!(kc.key_for(&"owner1".to_string(), KeyType::Space), Some(&vec![2]));
    assert_eq!(kc.key_for(&"owner1".to_string(), KeyType::Board), Some(&vec![3]));
    assert_eq!(kc.key_for(&"owner2".to_string(), KeyType::Space), None);
}

#[test]
fn entries_without_ids_are_skipped() {
    let board = board_with_space(Some("space1"), None);
    let profile = Profile {
        spaces: vec![
            ProfileEntry { id: None, key: Some(vec![7]) },
            space_entry("space1", Some(vec![1])),
        ],
        boards: vec![],
    };
    let kc = board.get_key_search(&profile);
    assert_eq!(kc.len(), 1);
    assert_eq!(kc.entry_at(0).owner_id, "space1".to_string());
}
