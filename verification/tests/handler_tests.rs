use piece_store::error::StorageError;
use piece_store::handler::DirAction;
use piece_store::handler::RootProbe;
use piece_store::handler::StorageHandler;
use piece_store::handler::_check_if_owner;
use piece_store::handler::plan_root;
use piece_store::layout::join;
use piece_store::layout::piece_path;
use piece_store::layout::pieces_dir;
use piece_store::layout::push_decimal;

const HANDLER_PATH: &str = "/tmp/beetle/tests/storage/handler";

fn absent() -> RootProbe {
    RootProbe {
        base_exists: false,
        base_is_dir: false,
        stat_status: -1,
        owner_uid: 0,
        process_uid: 1000,
        pieces_exists: false,
        pieces_is_dir: false,
    }
}

fn owned_with_pieces() -> RootProbe {
    RootProbe {
        base_exists: true,
        base_is_dir: true,
        stat_status: 0,
        owner_uid: 1000,
        process_uid: 1000,
        pieces_exists: true,
        pieces_is_dir: true,
    }
}

fn path_error(res: Result<DirAction, StorageError>) -> String {
    match res {
        Err(StorageError::PathError(msg)) => msg,
        other => panic!("no PathError: {:?}", other),
    }
}

#[test]
fn test_create_if_no_such_path() {
    let (handler, action) = StorageHandler::create(HANDLER_PATH, 5, &absent())
        .expect("Failed to create storage handler");
    assert_eq!(action, DirAction::CreateAll);
    assert_eq!(handler.path(), "/tmp/beetle/tests/storage/handler");
    assert_eq!(handler.pieces_path(), "/tmp/beetle/tests/storage/handler/.pieces");
    assert_eq!(handler.cache_len(), 0);
}

#[test]
fn test_create_if_path_exists() {
    let (handler, action) = StorageHandler::create(HANDLER_PATH, 5, &owned_with_pieces())
        .expect("Failed to create storage handler");
    assert_eq!(action, DirAction::Keep);
    assert_eq!(handler._get_piece_path(1), "/tmp/beetle/tests/storage/handler/.pieces/1.piece");
}

#[test]
fn test_create_if_no_permissions() {
    let probe = RootProbe { owner_uid: 0, process_uid: 1000, ..owned_with_pieces() };
    let res = StorageHandler::create("/bin/handler", 5, &probe);
    assert!(res.is_err());
    assert!(matches!(res, Err(StorageError::PermissionError(_))));
}

#[test]
fn test_store_piece() {
    let (storage_handler, _) = StorageHandler::create(HANDLER_PATH, 5, &absent())
        .expect("Failed to create storage handler");
    assert_eq!(
        storage_handler._get_piece_path(3),
        "/tmp/beetle/tests/storage/handler/.pieces/3.piece"
    );
}

#[test]
fn test_retrieve_piece() {
    let (mut storage_handler, _) = StorageHandler::create(HANDLER_PATH, 5, &absent())
        .expect("Failed to create storage handler");
    let piece_content = vec![10, 20, 30, 40, 50];

    let retrieved_piece_content = storage_handler
        .retrieve_piece(3, Ok(piece_content.clone()))
        .expect("Failed to retrieve piece");

    assert_eq!(&piece_content, &*retrieved_piece_content);
    assert!(storage_handler.is_cached(3));
    assert_eq!(storage_handler.cache_len(), 1);
}

#[test]
fn failed_read_is_an_io_error_and_caches_nothing() {
    let (mut handler, _) = StorageHandler::create(HANDLER_PATH, 5, &absent()).unwrap();
    let cause = std::io::Error::new(std::io::ErrorKind::NotFound, "no such piece");
    match handler.retrieve_piece(42, Err(cause)) {
        Err(StorageError::IOError(passed)) => {
            assert_eq!(passed.kind(), std::io::ErrorKind::NotFound);
            assert_eq!(passed.to_string(), "no such piece");
        }
        other => panic!("no IOError: {:?}", other),
    }
    assert!(!handler.is_cached(42));
    assert_eq!(handler.cache_len(), 0);
}

#[test]
fn io_error_converts_into_storage_error() {
    let cause = std::io::Error::new(std::io::ErrorKind::PermissionDenied, "denied");
    match StorageError::from(cause) {
        StorageError::IOError(passed) => {
            assert_eq!(passed.kind(), std::io::ErrorKind::PermissionDenied)
        }
        other => panic!("no IOError: {:?}", other),
    }
}

#[test]
fn handler_cache_evicts_in_batches() {
    let (mut handler, _) = StorageHandler::create(HANDLER_PATH, 3, &absent()).unwrap();
    for index in 0u32..3 {
        handler.retrieve_piece(index, Ok(vec![index as u8])).unwrap();
    }
    assert_eq!(handler.cache_len(), 3);
    handler.retrieve_piece(3, Ok(vec![3])).unwrap();
    assert_eq!(handler.cache_len(), 3);
    assert!(handler.is_cached(3));
}

#[test]
fn retrieved_buffer_is_shared_not_aliased_to_later_reads() {
    let (mut handler, _) = StorageHandler::create(HANDLER_PATH, 5, &absent()).unwrap();
    let first = handler.retrieve_piece(1, Ok(vec![1, 2, 3])).unwrap();
    let second = handler.retrieve_piece(1, Ok(vec![4, 5])).unwrap();
    assert_eq!(*first, vec![1, 2, 3]);
    assert_eq!(*second, vec![4, 5]);
    assert_eq!(handler.cache_len(), 1);
    // One handle here, one in the cache.
    assert_eq!(std::rc::Rc::strong_count(&second), 2);
    assert_eq!(std::rc::Rc::strong_count(&first), 1);
}

#[test]
fn empty_piece_round_trips() {
    let (mut handler, _) = StorageHandler::create(HANDLER_PATH, 5, &absent()).unwrap();
    let got = handler.retrieve_piece(0, Ok(Vec::new())).unwrap();
    assert!(got.is_empty());
}

#[test]
fn plan_for_each_kind_of_root() {
    assert_eq!(plan_root(&absent()).unwrap(), DirAction::CreateAll);
    assert_eq!(plan_root(&owned_with_pieces()).unwrap(), DirAction::Keep);
    let no_pieces = RootProbe { pieces_exists: false, pieces_is_dir: false, ..owned_with_pieces() };
    assert_eq!(plan_root(&no_pieces).unwrap(), DirAction::CreatePieces);
}

#[test]
fn root_that_is_a_file_is_a_path_error() {
    let probe = RootProbe { base_is_dir: false, ..owned_with_pieces() };
    assert_eq!(path_error(plan_root(&probe)), "Provided path exists and is not directory");
    // The kind is looked at before the owner.
    let foreign = RootProbe { owner_uid: 0, ..probe };
    assert_eq!(path_error(plan_root(&foreign)), "Provided path exists and is not directory");
}

#[test]
fn pieces_entry_that_is_a_file_is_a_path_error() {
    let probe = RootProbe { pieces_is_dir: false, ..owned_with_pieces() };
    assert_eq!(path_error(plan_root(&probe)), "Invalid pieces path inside of provided path");
}

#[test]
fn failed_stat_is_a_path_error() {
    let probe = RootProbe { stat_status: -1, ..owned_with_pieces() };
    assert_eq!(path_error(plan_root(&probe)), "Failed to get stat for path");
}

#[test]
fn foreign_root_is_a_permission_error() {
    let probe = RootProbe { owner_uid: 0, ..owned_with_pieces() };
    match plan_root(&probe) {
        Err(StorageError::PermissionError(msg)) => {
            assert_eq!(msg, "Current user not owner of directory at given path")
        }
        other => panic!("no PermissionError: {:?}", other),
    }
}

#[test]
fn absent_root_is_accepted_whatever_the_rest_says() {
    let probe = RootProbe { base_exists: false, owner_uid: 0, pieces_is_dir: false, ..owned_with_pieces() };
    assert_eq!(plan_root(&probe).unwrap(), DirAction::CreateAll);
}

#[test]
fn owner_check_compares_the_user_ids() {
    assert_eq!(_check_if_owner(0, 1000, 1000).unwrap(), true);
    assert_eq!(_check_if_owner(0, 0, 1000).unwrap(), false);
    match _check_if_owner(-1, 1000, 1000) {
        Err(StorageError::PathError(msg)) => assert_eq!(msg, "Failed to get stat for path"),
        other => panic!("no PathError: {:?}", other),
    }
}

#[test]
fn create_twice_on_an_owned_root() {
    let no_pieces = RootProbe { pieces_exists: false, pieces_is_dir: false, ..owned_with_pieces() };
    let (_, first) = StorageHandler::create(HANDLER_PATH, 5, &no_pieces).unwrap();
    assert_eq!(first, DirAction::CreatePieces);
    let (_, second) = StorageHandler::create(HANDLER_PATH, 5, &owned_with_pieces()).unwrap();
    assert_eq!(second, DirAction::Keep);
}

#[test]
fn piece_file_names_are_decimal() {
    assert_eq!(piece_path("/r/.pieces", 0), "/r/.pieces/0.piece");
    assert_eq!(piece_path("/r/.pieces", 7), "/r/.pieces/7.piece");
    assert_eq!(piece_path("/r/.pieces", 10), "/r/.pieces/10.piece");
    assert_eq!(piece_path("/r/.pieces", 1203), "/r/.pieces/1203.piece");
    assert_eq!(piece_path("/r/.pieces", u32::MAX), "/r/.pieces/4294967295.piece");
}

#[test]
fn decimal_is_appended() {
    let mut out = String::from("n=");
    push_decimal(&mut out, 90817);
    assert_eq!(out, "n=90817");
}

#[test]
fn join_puts_one_separator() {
    assert_eq!(join("/a/b", "c"), "/a/b/c");
    assert_eq!(join("/a/b/", "c"), "/a/b/c");
    assert_eq!(join("", "c"), "c");
    assert_eq!(join("/", "c"), "/c");
    assert_eq!(join("rel", ".pieces"), "rel/.pieces");
    assert_eq!(pieces_dir("/tmp/store"), "/tmp/store/.pieces");
    assert_eq!(pieces_dir("/tmp/store/"), "/tmp/store/.pieces");
}

#[test]
fn different_pieces_have_different_files() {
    let mut seen = std::collections::HashSet::new();
    for index in (0u32..2000).chain([u32::MAX, u32::MAX - 1, 1_000_000]) {
        assert!(seen.insert(piece_path("/r/.pieces", index)));
    }
}

#[test]
fn round_trip_through_a_map_of_files() {
    let (mut handler, _) = StorageHandler::create(HANDLER_PATH, 5, &absent()).unwrap();
    let mut files: std::collections::HashMap<String, Vec<u8>> = std::collections::HashMap::new();
    files.insert(handler._get_piece_path(3), vec![10, 20, 30, 40, 50]);
    files.insert(handler._get_piece_path(30), vec![7]);
    files.insert(handler._get_piece_path(3), vec![1, 2]);

    let read = |files: &std::collections::HashMap<String, Vec<u8>>, path: String| {
        files
            .get(&path)
            .cloned()
            .ok_or(std::io::Error::new(std::io::ErrorKind::NotFound, "absent"))
    };
    let path = handler._get_piece_path(3);
    assert_eq!(*handler.retrieve_piece(3, read(&files, path)).unwrap(), vec![1, 2]);
    let path = handler._get_piece_path(30);
    assert_eq!(*handler.retrieve_piece(30, read(&files, path)).unwrap(), vec![7]);
    let path = handler._get_piece_path(0);
    assert!(matches!(
        handler.retrieve_piece(0, read(&files, path)),
        Err(StorageError::IOError(_))
    ));
}
