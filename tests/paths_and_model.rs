use aliyundrive_webdav::model::ListFileResponse;
use aliyundrive_webdav::model::DriveConfig;
use aliyundrive_webdav::model::local_lookup;
use aliyundrive_webdav::paths::child_path;
use aliyundrive_webdav::model::{
    AliyunFile, CreateFileWithProofRequest, DateTime, DriveType, FileType, GetDriveInfoResponse,
    GetFileResponse, ListFileItem, ListFileRequest, StreamInfo,
};
use aliyundrive_webdav::paths::{file_name, normalize_path, parent_path, root_from_exec};
use aliyundrive_webdav::text::{chars_of, parse_u64};
use aliyundrive_webdav::vfs::AliyunDriveFileSystem;

fn s(v: &[char]) -> String {
    v.iter().collect()
}

#[test]
fn normalize_adds_root_once() {
    let fs = AliyunDriveFileSystem::new("dav/".to_string(), 10, 60);
    assert_eq!(fs.root, "/dav");
    let once = fs.normalize_dav_path("/a/b");
    assert_eq!(once, "/dav/a/b");
    assert_eq!(fs.normalize_dav_path(&once), once);
    assert_eq!(fs.normalize_dav_path("/"), "/dav");
    assert_eq!(fs.normalize_dav_path("/dav"), "/dav");
    assert_eq!(fs.normalize_dav_path("/davx/y"), "/dav/davx/y");
}

#[test]
fn normalize_with_top_root_keeps_path() {
    let fs = AliyunDriveFileSystem::new("/".to_string(), 10, 60);
    assert_eq!(fs.normalize_dav_path("/a b/c"), "/a b/c");
    assert_eq!(fs.normalize_dav_path("/"), "/");
}

#[test]
fn root_forms() {
    assert_eq!(s(&root_from_exec("")), "/");
    assert_eq!(s(&root_from_exec("x")), "/x");
    assert_eq!(s(&root_from_exec("/x//")), "/x");
    assert_eq!(s(&normalize_path(&chars_of("/r"), &chars_of("/q"))), "/r/q");
}

#[test]
fn parents_and_names() {
    assert_eq!(parent_path(&chars_of("/")), None);
    assert_eq!(s(&parent_path(&chars_of("/a")).unwrap()), "/");
    assert_eq!(s(&parent_path(&chars_of("/a/b")).unwrap()), "/a");
    assert_eq!(s(&file_name(&chars_of("/a/b c")).unwrap()), "b c");
    assert_eq!(file_name(&chars_of("/")), None);
}

#[test]
fn root_entry_is_synthesized() {
    let r = AliyunFile::new_root();
    assert_eq!(r.id, "root");
    assert_eq!(r.name, "/");
    assert_eq!(r.kind, FileType::Folder);
    assert_eq!(r.size, 0);
    assert!(r.is_dir());
    let fs = AliyunDriveFileSystem::new("/".to_string(), 10, 60);
    let found = fs.find_in_cache("/").ok().flatten().unwrap();
    assert_eq!(found.id, "root");
}

fn item(name: &str, category: Option<&str>) -> ListFileItem {
    ListFileItem {
        name: name.to_string(),
        category: category.map(|c| c.to_string()),
        id: "id1".to_string(),
        kind: FileType::File,
        created_at: DateTime::new(0),
        updated_at: DateTime::new(5),
        size: None,
        url: Some("https://example.com/f".to_string()),
        content_hash: Some("ABC".to_string()),
    }
}

#[test]
fn listing_drops_image_urls() {
    let img: AliyunFile = item("a.jpg", Some("image")).into();
    assert_eq!(img.url, None);
    assert_eq!(img.size, 0);
    let doc: AliyunFile = item("a.txt", Some("doc")).into();
    assert_eq!(doc.url, Some("https://example.com/f".to_string()));
    assert_eq!(doc.content_hash, Some("ABC".to_string()));
    let none: AliyunFile = item("a.bin", None).into();
    assert!(none.url.is_some());
}

fn livp_response(ext: &str) -> GetFileResponse {
    GetFileResponse {
        name: "photo.livp".to_string(),
        file_extension: ext.to_string(),
        id: "p1".to_string(),
        kind: FileType::File,
        created_at: DateTime::new(0),
        updated_at: DateTime::new(0),
        size: 7,
        streams_info: vec![
            ("heic".to_string(), StreamInfo { size: 100 }),
            ("mov".to_string(), StreamInfo { size: 200 }),
        ],
    }
}

#[test]
fn livp_size_is_the_zip_size() {
    let f: AliyunFile = livp_response("livp").into();
    // (30 + 10 + 100 + 46 + 10) + (30 + 9 + 200 + 46 + 9) + 22
    assert_eq!(f.size, 512);
    assert_eq!(f.url, None);
    let plain: AliyunFile = livp_response("jpg").into();
    assert_eq!(plain.size, 7);
}

#[test]
fn rfc3339_timestamps() {
    let d = DateTime::parse_rfc3339("1970-01-01T00:00:01Z").unwrap();
    assert_eq!(d.unix_nanos, 1_000_000_000);
    let e = DateTime::parse_rfc3339("2021-08-01T10:00:00.5+01:00").unwrap();
    assert_eq!(e.unix_nanos, 1_627_808_400_500_000_000);
    assert!(DateTime::parse_rfc3339("yesterday").is_none());
}

#[test]
fn decimal_parsing() {
    assert_eq!(parse_u64("123"), Some(123));
    assert_eq!(parse_u64("+5"), Some(5));
    assert_eq!(parse_u64(""), None);
    assert_eq!(parse_u64("+"), None);
    assert_eq!(parse_u64("12a"), None);
    assert_eq!(parse_u64("18446744073709551615"), Some(u64::MAX));
    assert_eq!(parse_u64("18446744073709551616"), None);
}

#[test]
fn list_request_conventions() {
    let r = ListFileRequest::new("d".to_string(), "root".to_string(), None);
    assert_eq!(r.limit, 200);
    assert_eq!(r.fields, "*");
    assert_eq!(r.order_by, "updated_at");
    assert_eq!(r.order_direction, "DESC");
}

#[test]
fn create_request_conventions() {
    let r = CreateFileWithProofRequest::new("d".into(), "x.bin".into(), "p".into(), 41943040, 3);
    assert_eq!(r.check_name_mode, "refuse");
    assert_eq!(r.content_hash_name, "none");
    assert_eq!(r.content_hash, "");
    assert_eq!(r.proof_version, "v1");
    assert_eq!(r.kind, "file");
    let numbers: Vec<u64> = r.part_info_list.iter().map(|p| p.part_number).collect();
    assert_eq!(numbers, vec![1, 2, 3]);
}

#[test]
fn drive_selection() {
    let res = GetDriveInfoResponse {
        default_drive_id: "d".into(),
        resource_drive_id: Some("r".into()),
        backup_drive_id: None,
    };
    assert_eq!(res.clone().drive_id_for(Some(DriveType::Resource)), "r");
    assert_eq!(res.clone().drive_id_for(Some(DriveType::Backup)), "d");
    assert_eq!(res.drive_id_for(None), "d");
}

#[test]
fn listing_pages() {
    let page = ListFileResponse { items: vec![item("a.jpg", Some("image")), item("b.txt", None)], next_marker: "m2".into() };
    let (entries, next) = page.into_page();
    assert_eq!(entries.len(), 2);
    assert_eq!(entries[0].url, None);
    assert_eq!(entries[1].name, "b.txt");
    assert_eq!(next, Some("m2".to_string()));
    let last = ListFileResponse { items: Vec::new(), next_marker: String::new() };
    assert_eq!(last.into_page().1, None);
}

#[test]
fn refresh_form() {
    let mut cfg = DriveConfig {
        api_base_url: "https://api".into(),
        refresh_token_host: "https://auth".into(),
        workdir: None,
        client_id: None,
        client_secret: None,
        drive_type: None,
    };
    let plain = cfg.refresh_request("tok");
    assert_eq!(plain, vec![("refresh_token".to_string(), "tok".to_string()), ("grant_type".to_string(), "refresh_token".to_string())]);
    cfg.client_id = Some("cid".into());
    cfg.client_secret = Some("sec".into());
    let full = cfg.refresh_request("tok");
    assert_eq!(full.len(), 4);
    assert_eq!(full[2], ("client_id".to_string(), "cid".to_string()));
    assert_eq!(full[3], ("client_secret".to_string(), "sec".to_string()));
}

#[test]
fn root_lookups_need_no_call() {
    assert_eq!(local_lookup("/").unwrap().id, "root");
    assert_eq!(local_lookup("").unwrap().name, "/");
    assert!(local_lookup("/a").is_none());
}

#[test]
fn joining_paths() {
    assert_eq!(s(&child_path(&chars_of("/"), &chars_of("a"))), "/a");
    assert_eq!(s(&child_path(&chars_of("/a"), &chars_of("b c"))), "/a/b c");
}
