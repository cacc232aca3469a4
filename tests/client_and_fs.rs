use aliyundrive_webdav::vfs::{merge_uploading, PathWalk, WalkStep};
use aliyundrive_webdav::vfs::listing_parent_id;
use aliyundrive_webdav::file::expiry_of_pairs;
use aliyundrive_webdav::cache::Cache;
use aliyundrive_webdav::client::{
    answer_error, answer_step, check_credentials, check_saved_token, refresh_delay_secs,
    refresh_step, removal_result, AnswerStep, Credentials, RefreshFailure, RefreshStep,
};
use aliyundrive_webdav::error::FsError;
use aliyundrive_webdav::login::{QrCodeStatus, QrCodeStatusResponse};
use aliyundrive_webdav::model::{AliyunFile, DateTime, FileType, RefreshTokenResponse};
use aliyundrive_webdav::vfs::{
    find_in_list, get_prop, sha1_from_checksum, stale_listing_keys, walk_segments,
    without_named, AliyunDriveFileSystem, Mutation, OpenOptions, RenameKind,
};

fn entry(id: &str, name: &str, kind: FileType) -> AliyunFile {
    AliyunFile {
        name: name.to_string(),
        id: id.to_string(),
        kind,
        created_at: DateTime::new(0),
        updated_at: DateTime::new(0),
        size: 3,
        url: None,
        content_hash: None,
    }
}

fn opts(write: bool, create: bool, create_new: bool, append: bool) -> OpenOptions {
    OpenOptions {
        read: !write,
        write,
        append,
        truncate: false,
        create,
        create_new,
        size: Some(42),
        checksum: Some("SHA1:abcdef".to_string()),
    }
}

#[test]
fn reactive_unauthorized_retries_once() {
    assert_eq!(answer_step(1, 401), AnswerStep::RefreshAndRetry);
    assert_eq!(answer_step(2, 200), AnswerStep::Decode);
    assert_eq!(answer_step(2, 401), AnswerStep::Fail);
    assert_eq!(answer_step(1, 503), AnswerStep::PauseAndRetry);
    assert_eq!(answer_step(2, 503), AnswerStep::Fail);
    assert_eq!(answer_step(1, 204), AnswerStep::Empty);
    assert_eq!(answer_step(1, 404), AnswerStep::NotFound);
    assert_eq!(answer_step(1, 403), AnswerStep::Fail);
    assert_eq!(answer_step(1, 302), AnswerStep::Fail);
    assert_eq!(answer_step(1, 201), AnswerStep::Decode);
}

#[test]
fn answer_errors() {
    assert!(matches!(answer_error(404, "x".into()), FsError::NotFound));
    match answer_error(403, "denied".into()) {
        FsError::Upstream { status, body } => {
            assert_eq!(status, 403);
            assert_eq!(body, "denied");
        }
        _ => panic!("expected upstream"),
    }
}

#[test]
fn removal_of_absent_entry_succeeds() {
    assert!(removal_result(404, String::new()).is_ok());
    assert!(removal_result(400, String::new()).is_ok());
    assert!(removal_result(204, String::new()).is_ok());
    assert!(removal_result(302, String::new()).is_err());
    assert!(matches!(removal_result(500, "e".into()), Err(FsError::Upstream { status: 500, .. })));
}

#[test]
fn refresh_retry_rules() {
    let cur = "cli".to_string();
    let file = Some("  disk.token.x\n".to_string());
    match refresh_step(1, RefreshFailure::Transient, &cur, &file) {
        RefreshStep::RetryWith(t) => assert_eq!(t, "cli"),
        _ => panic!("expected retry"),
    }
    match refresh_step(1, RefreshFailure::Rejected, &cur, &file) {
        RefreshStep::RetryWith(t) => assert_eq!(t, "disk.token.x"),
        _ => panic!("expected retry"),
    }
    assert!(matches!(refresh_step(1, RefreshFailure::Rejected, &cur, &None), RefreshStep::GiveUp));
    assert!(matches!(refresh_step(10, RefreshFailure::Transient, &cur, &file), RefreshStep::GiveUp));
    let padded = Some("cli\n".to_string());
    assert!(matches!(refresh_step(2, RefreshFailure::Rejected, &cur, &padded), RefreshStep::GiveUp));
    let same = Some("cli".to_string());
    assert!(matches!(refresh_step(2, RefreshFailure::Rejected, &cur, &same), RefreshStep::GiveUp));
}

#[test]
fn refresh_timing_and_tokens() {
    assert_eq!(refresh_delay_secs(7200), 7000);
    assert_eq!(refresh_delay_secs(100), 0);
    assert!(check_saved_token("a.b.c").is_ok());
    assert!(matches!(check_saved_token("abc"), Err(FsError::GeneralFailure)));
    assert!(check_credentials("", &None).is_err());
    assert!(matches!(check_credentials("", &None), Err(FsError::NoCredential)));
    assert!(check_credentials("", &Some("t".into())).is_ok());
    assert!(check_credentials("t", &None).is_ok());
}

#[test]
fn token_rotation() {
    let mut c = Credentials::new("old".into());
    assert!(matches!(c.access_token(), Err(FsError::NoCredential)));
    let res = RefreshTokenResponse {
        access_token: "acc".into(),
        refresh_token: "new".into(),
        expires_in: 7200,
        token_type: "Bearer".into(),
    };
    let keep = c.rotate(&res);
    assert_eq!(keep, "new");
    assert_eq!(c.refresh_token, "new");
    assert_eq!(c.access_token().unwrap(), "acc");
}

#[test]
fn ds_store_is_refused_before_lookup() {
    let fs = AliyunDriveFileSystem::new("/".into(), 10, 60);
    assert!(matches!(fs.open_target("/a/.DS_Store", &opts(true, true, false, false)), Err(FsError::NotFound)));
    assert!(matches!(fs.open_target("/a/._x", &opts(true, false, true, false)), Err(FsError::NotFound)));
    assert!(fs.open_target("/a/.DS_Store", &opts(false, false, false, false)).is_ok());
    assert!(matches!(fs.open_target("/a/x", &opts(true, true, false, true)), Err(FsError::NotImplemented)));
    let t = fs.open_target("/a/x", &opts(true, true, false, false)).unwrap();
    assert_eq!(t.parent_path, "/a");
    assert_eq!(t.name, "x");
    assert_eq!(t.sha1, Some("abcdef".to_string()));
}

#[test]
fn open_decisions() {
    let mut fs = AliyunDriveFileSystem::new("/".into(), 10, 60);
    let parent = entry("pid", "a", FileType::Folder);
    let existing = entry("fid", "x", FileType::File);
    let t = fs.open_target("/a/x", &opts(true, true, false, false)).unwrap();
    assert!(matches!(fs.open_file(t.clone(), None, None, &opts(true, true, false, false)), Err(FsError::NotFound)));
    assert!(matches!(
        fs.open_file(t.clone(), Some(parent.clone()), Some(existing.clone()), &opts(true, false, true, false)),
        Err(FsError::Exists)
    ));
    assert!(matches!(
        fs.open_file(t.clone(), Some(parent.clone()), None, &opts(false, false, false, false)),
        Err(FsError::NotFound)
    ));
    let f = fs.open_file(t.clone(), Some(parent.clone()), Some(existing.clone()), &opts(false, false, false, false)).unwrap();
    assert_eq!(f.file.id, "fid");
    let g = fs.open_file(t.clone(), Some(parent.clone()), None, &opts(true, true, false, false)).unwrap();
    assert_eq!(g.file.id, "");
    assert_eq!(g.file.size, 42);
    assert_eq!(g.parent_file_id, "pid");
    let pending = fs.list_uploading_files(&"pid".to_string());
    let listed = merge_uploading(vec![existing.clone()], pending);
    assert_eq!(listed.len(), 2);
    assert_eq!(listed[0].id, "fid");
    assert_eq!(listed[1].name, "x");
    assert_eq!(listed[1].id, "");
    fs.remove_uploading_file(&"pid".to_string(), &"x".to_string());
    assert_eq!(fs.list_uploading_files(&"pid".to_string()).len(), 0);
    fs.set_read_only(true);
    assert!(matches!(
        fs.open_file(t.clone(), Some(parent.clone()), Some(existing), &opts(true, true, false, false)),
        Err(FsError::Forbidden)
    ));
    assert!(matches!(fs.open_file(t, Some(parent), None, &opts(true, true, false, false)), Err(FsError::Forbidden)));
}

#[test]
fn mutation_checks() {
    let mut fs = AliyunDriveFileSystem::new("/".into(), 10, 60);
    let folder = entry("d", "a", FileType::Folder);
    let file = entry("f", "x", FileType::File);
    assert_eq!(fs.create_dir_check("/a/new", &Some(folder.clone())).unwrap(), "new");
    assert!(matches!(fs.create_dir_check("/a/new", &Some(file.clone())), Err(FsError::Forbidden)));
    assert!(matches!(fs.create_dir_check("/a/new", &None), Err(FsError::NotFound)));
    assert!(matches!(fs.remove_check(&None, FileType::File), Err(FsError::NotFound)));
    assert!(matches!(fs.remove_check(&Some(folder.clone()), FileType::File), Err(FsError::Forbidden)));
    assert_eq!(fs.remove_check(&Some(file.clone()), FileType::File).unwrap(), ("f".to_string(), true));
    fs.set_no_trash(true);
    assert_eq!(fs.remove_check(&Some(file.clone()), FileType::File).unwrap(), ("f".to_string(), false));
    match fs.rename_kind("/a/x", "/a/y").unwrap() {
        RenameKind::Rename { name } => assert_eq!(name, "y"),
        _ => panic!("expected rename"),
    }
    match fs.rename_kind("/a/x", "/b/x").unwrap() {
        RenameKind::Move { new_name } => assert_eq!(new_name, Some("x".to_string())),
        _ => panic!("expected move"),
    }
    fs.set_read_only(true);
    assert!(matches!(fs.rename_kind("/a/x", "/a/y"), Err(FsError::Forbidden)));
    assert!(matches!(fs.create_dir_check("/a/new", &Some(folder)), Err(FsError::Forbidden)));
    assert!(fs.check_writable().is_err());
}

#[test]
fn stale_listings() {
    let k = stale_listing_keys(&Mutation::Rename { from: "/a/x".into(), to: "/b/x".into(), is_dir: true });
    assert_eq!(k, vec!["/a/x".to_string(), "/a".to_string(), "/b".to_string()]);
    let k = stale_listing_keys(&Mutation::Rename { from: "/a/x".into(), to: "/a/y".into(), is_dir: false });
    assert_eq!(k, vec!["/a".to_string(), "/a".to_string()]);
    assert_eq!(stale_listing_keys(&Mutation::RemoveFile("/x".into())), vec!["/".to_string()]);
    assert_eq!(stale_listing_keys(&Mutation::RemoveDir("/a/b".into())), vec!["/a/b".to_string(), "/a".to_string()]);
    assert_eq!(stale_listing_keys(&Mutation::CreateDir("/a".into())), vec!["/".to_string()]);
    assert_eq!(stale_listing_keys(&Mutation::Copy { to: "/c/x".into() }), vec!["/c/x".to_string(), "/c".to_string()]);
    assert_eq!(stale_listing_keys(&Mutation::Upload { parent_dir: "/c".into() }), vec!["/c".to_string()]);
}

#[test]
fn cache_is_invalidated_after_change() {
    let fs = AliyunDriveFileSystem::new("/".into(), 10, 600);
    fs.dir_cache.insert("/a".into(), vec![entry("f", "x", FileType::File)]);
    fs.dir_cache.insert("/b".into(), Vec::new());
    assert!(fs.find_in_cache("/a/x").unwrap().is_some());
    fs.invalidate_after(&Mutation::Rename { from: "/a/x".into(), to: "/b/x".into(), is_dir: false });
    assert!(fs.dir_cache.get(&"/a".to_string()).is_none());
    assert!(fs.dir_cache.get(&"/b".to_string()).is_none());
    let c = Cache::new(10, 600);
    c.insert("/q".into(), Vec::new());
    c.invalidate_parent("/q/z");
    assert!(c.get(&"/q".to_string()).is_none());
}

#[test]
fn checksum_hints() {
    assert_eq!(sha1_from_checksum("SHA1:abcd"), Some("abcd".to_string()));
    assert_eq!(sha1_from_checksum("sha1:a:b"), Some("a:b".to_string()));
    assert_eq!(sha1_from_checksum("md5:abcd"), None);
    assert_eq!(sha1_from_checksum("nocolon"), None);
}

#[test]
fn checksums_property() {
    let mut f = entry("f", "x", FileType::File);
    let ns = Some("http://owncloud.org/ns".to_string());
    assert!(matches!(get_prop(&ns, "checksums", &f), Err(FsError::NotImplemented)));
    f.content_hash = Some("ABC123".into());
    let xml = String::from_utf8(get_prop(&ns, "checksums", &f).unwrap()).unwrap();
    assert!(xml.contains("<oc:checksum>sha1:ABC123</oc:checksum>"));
    assert!(xml.starts_with("<?xml version=\"1.0\"?>"));
    assert!(matches!(get_prop(&ns, "size", &f), Err(FsError::NotImplemented)));
    assert!(matches!(get_prop(&None, "checksums", &f), Err(FsError::NotImplemented)));
}

#[test]
fn path_walk_for_names_with_spaces() {
    let segs = walk_segments("/my docs/a b.txt");
    assert_eq!(segs, vec!["my docs".to_string(), "a b.txt".to_string()]);
    let listing = vec![entry("1", "other", FileType::File), entry("2", "a b.txt", FileType::File), entry("3", "a b.txt", FileType::File)];
    assert_eq!(find_in_list(&listing, &"a b.txt".to_string()).unwrap().id, "2");
    assert!(find_in_list(&listing, &"zzz".to_string()).is_none());
    let rest = without_named(listing, &"a b.txt".to_string());
    let ids: Vec<String> = rest.iter().map(|f| f.id.clone()).collect();
    assert_eq!(ids, vec!["1".to_string(), "3".to_string()]);
}

#[test]
fn qr_statuses() {
    assert_eq!(QrCodeStatus::parse("LoginSuccess"), QrCodeStatus::LoginSuccess);
    assert_eq!(QrCodeStatus::parse("WaitLogin"), QrCodeStatus::WaitLogin);
    assert_eq!(QrCodeStatus::parse("ScanSuccess"), QrCodeStatus::ScanSuccess);
    assert_eq!(QrCodeStatus::parse("whatever"), QrCodeStatus::QrCodeExpired);
    let ok: QrCodeStatus = "LoginSuccess".parse().unwrap();
    assert!(QrCodeStatusResponse { status: ok, auth_code: None }.is_success());
    assert!(!QrCodeStatusResponse { status: QrCodeStatus::WaitLogin, auth_code: None }.is_success());
}

#[test]
fn cold_listing_of_root_uses_root_id() {
    assert_eq!(listing_parent_id("/", &None).unwrap(), "root");
    let folder = entry("fid", "a", FileType::Folder);
    assert_eq!(listing_parent_id("/a", &Some(folder)).unwrap(), "fid");
    assert!(matches!(listing_parent_id("/a", &None), Err(FsError::NotFound)));
}

#[test]
fn expiry_from_query_pairs() {
    let pairs = vec![
        ("a".to_string(), "1".to_string()),
        ("x-oss-expires".to_string(), "soon".to_string()),
        ("x-oss-expires".to_string(), "1700000000".to_string()),
    ];
    assert_eq!(expiry_of_pairs(&pairs), Some(1700000000));
    assert_eq!(expiry_of_pairs(&Vec::new()), None);
}

#[test]
fn walk_finds_names_that_lookup_by_path_rejects() {
    let mut w = PathWalk::new("/my docs/a  b.txt");
    assert!(!w.is_done());
    let root_listing = vec![entry("d1", "my docs", FileType::Folder), entry("x", "other", FileType::File)];
    assert!(matches!(w.step(&root_listing), WalkStep::Continue));
    assert_eq!(w.dir.iter().collect::<String>(), "/my docs");
    assert_eq!(w.found.as_ref().unwrap().id, "d1");
    let docs = vec![entry("f9", "a  b.txt", FileType::File)];
    match w.step(&docs) {
        WalkStep::Found(f) => assert_eq!(f.id, "f9"),
        _ => panic!("expected found"),
    }
    assert!(w.is_done());
    let mut missing = PathWalk::new("/nope/x");
    assert!(matches!(missing.step(&root_listing), WalkStep::Absent));
    assert_eq!(missing.next, 0);
}
