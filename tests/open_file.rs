use aliyundrive_webdav::error::FsError;
use aliyundrive_webdav::file::{
    chunk_count, is_expired_failure, is_url_expired, range_header, redirect_allowed,
    AliyunDavFile, FlushStep, PartFailure, PrepareStep, ReadPlan, ReadStep, SeekFrom, UploadPhase,
};
use aliyundrive_webdav::model::{
    AliyunFile, CreateFileWithProofResponse, DateTime, FileType, UploadPartInfo,
};

const MIB16: u64 = 16 * 1024 * 1024;

fn entry(id: &str, name: &str, size: u64) -> AliyunFile {
    AliyunFile {
        name: name.to_string(),
        id: id.to_string(),
        kind: FileType::File,
        created_at: DateTime::new(0),
        updated_at: DateTime::new(0),
        size,
        url: None,
        content_hash: None,
    }
}

fn parts(n: u64, tag: &str) -> Vec<UploadPartInfo> {
    (1..=n)
        .map(|k| UploadPartInfo { part_number: k, upload_url: format!("https://up/{}/{}", tag, k) })
        .collect()
}

fn opened(size: u64, part: u64) -> AliyunDavFile {
    let mut f = AliyunDavFile::new(entry("", "hello.bin", size), "p".into(), "/".into(), size, None, part, false, true);
    let n = chunk_count(size, part);
    let res = CreateFileWithProofResponse {
        part_info_list: parts(n, "a"),
        file_id: "f1".into(),
        upload_id: Some("u1".into()),
        file_name: "hello.bin".into(),
    };
    match f.prepare_step("d".into()) {
        PrepareStep::Create { remove, request } => {
            assert!(remove.is_none());
            assert_eq!(request.part_info_list.len() as u64, n);
        }
        _ => panic!("expected create"),
    }
    f.accept_created(res).unwrap();
    f
}

#[test]
fn chunk_counts() {
    assert_eq!(chunk_count(0, MIB16), 0);
    assert_eq!(chunk_count(MIB16, MIB16), 1);
    assert_eq!(chunk_count(MIB16 + 1, MIB16), 2);
    assert_eq!(chunk_count(41943040, MIB16), 3);
}

#[test]
fn forty_mib_in_three_parts() {
    let size: u64 = 41943040;
    let mut f = opened(size, MIB16);
    let data: Vec<u8> = (0..size).map(|i| (i % 251) as u8).collect();
    let mut sent: Vec<(String, usize)> = Vec::new();
    let mut all: Vec<u8> = Vec::new();
    for piece in data.chunks(1 << 20) {
        f.append(piece);
        while let Some((url, bytes)) = f.take_chunk(false) {
            sent.push((url, bytes.len()));
            all.extend_from_slice(&bytes);
            f.chunk_uploaded();
        }
    }
    while let Some((url, bytes)) = f.take_chunk(true) {
        sent.push((url, bytes.len()));
        all.extend_from_slice(&bytes);
        f.chunk_uploaded();
    }
    let sizes: Vec<usize> = sent.iter().map(|x| x.1).collect();
    assert_eq!(sizes, vec![16777216, 16777216, 8388608]);
    assert_eq!(sent[2].0, "https://up/a/3");
    assert!(all == data);
    match f.flush_step() {
        FlushStep::Complete { file_id, upload_id } => {
            assert_eq!(file_id, "f1");
            assert_eq!(upload_id, "u1");
        }
        _ => panic!("expected complete"),
    }
}

#[test]
fn one_full_part() {
    let mut f = opened(8, 8);
    f.append(&[1, 2, 3, 4, 5, 6, 7, 8]);
    let (_, b) = f.take_chunk(false).unwrap();
    assert_eq!(b.len(), 8);
    f.chunk_uploaded();
    assert!(f.take_chunk(true).is_none());
}

#[test]
fn empty_file_puts_nothing_and_completes() {
    let mut f = opened(0, 8);
    assert!(f.take_chunk(true).is_none());
    assert!(matches!(f.flush_step(), FlushStep::Complete { .. }));
}

#[test]
fn expired_part_address_is_reissued() {
    let mut f = opened(10, 4);
    f.append(&[0; 10]);
    let (url, _) = f.take_chunk(false).unwrap();
    assert_eq!(url, "https://up/a/1");
    f.chunk_uploaded();
    let (url2, _) = f.take_chunk(false).unwrap();
    assert_eq!(url2, "https://up/a/2");
    assert_eq!(f.current_part_url(), "https://up/a/2");
    assert_eq!(f.part_failed("403: Request has expired.", 1), PartFailure::Reissue);
    assert_eq!(f.part_failed("403: Request has expired.", 2), PartFailure::Fail);
    assert_eq!(f.part_failed("500 Internal Server Error", 1), PartFailure::Fail);
    assert!(is_expired_failure("403 Forbidden: <Code>AccessDenied</Code><Message>Request has expired.</Message>"));
    assert!(!is_expired_failure("500 Internal Server Error"));
    assert!(f.replace_upload_urls(parts(2, "b")).is_err());
    f.replace_upload_urls(parts(3, "b")).unwrap();
    assert_eq!(f.upload_state.upload_urls[1], "https://up/b/2");
    f.chunk_uploaded();
    let (url3, b) = f.take_chunk(true).unwrap();
    assert_eq!(url3, "https://up/b/3");
    assert_eq!(b.len(), 2);
}

#[test]
fn upload_answer_without_id_fails() {
    let mut f = AliyunDavFile::new(entry("", "x", 5), "p".into(), "/".into(), 5, None, 4, false, false);
    let res = CreateFileWithProofResponse {
        part_info_list: parts(2, "a"),
        file_id: "f".into(),
        upload_id: None,
        file_name: "x".into(),
    };
    assert!(matches!(f.accept_created(res), Err(FsError::GeneralFailure)));
    let mut g = AliyunDavFile::new(entry("", "x", 5), "p".into(), "/".into(), 5, None, 4, false, false);
    let short = CreateFileWithProofResponse {
        part_info_list: parts(1, "a"),
        file_id: "f".into(),
        upload_id: Some("u".into()),
        file_name: "x".into(),
    };
    assert!(g.accept_created(short).is_err());
}

#[test]
fn same_content_is_not_sent_again() {
    let mut existing = entry("e1", "x", 5);
    existing.content_hash = Some("ABCDEF".into());
    let f = AliyunDavFile::new(existing.clone(), "p".into(), "/".into(), 9, Some("abcdef".into()), 4, false, false);
    assert!(matches!(f.prepare_step("d".into()), PrepareStep::Skip));
    let g = AliyunDavFile::new(entry("e1", "x", 5), "p".into(), "/".into(), 5, None, 4, true, false);
    assert!(matches!(g.prepare_step("d".into()), PrepareStep::Skip));
    let h = AliyunDavFile::new(entry("e1", "x", 5), "p".into(), "/".into(), 6, None, 4, true, true);
    match h.prepare_step("d".into()) {
        PrepareStep::Create { remove, .. } => assert_eq!(remove, Some(("e1".to_string(), false))),
        _ => panic!("expected create"),
    }
    let mut k = AliyunDavFile::new(entry("e1", "x", 5), "p".into(), "/".into(), 5, None, 4, true, false);
    k.skip_upload();
    k.append(&[1, 2, 3]);
    assert!(k.upload_state.buffer.is_empty());
    assert_eq!(k.upload_state.phase, UploadPhase::Skipped);
    assert!(matches!(k.flush_step(), FlushStep::Nothing));
}

#[test]
fn range_headers() {
    assert_eq!(range_header(0, 10), "bytes=0-9");
    assert_eq!(range_header(100, 1), "bytes=100-100");
    assert_eq!(range_header(10485760, 10485760), "bytes=10485760-20971519");
}

#[test]
fn expiry_of_presigned_addresses() {
    let u = "https://bj29.cn-beijing.data.alicloudccp.com/x?x-oss-access-key-id=k&x-oss-expires=1000&x-oss-signature=s";
    assert!(!is_url_expired(u, 939));
    assert!(is_url_expired(u, 940));
    assert!(is_url_expired(u, 5000));
    assert!(!is_url_expired("https://a.example/x?y=1", 5000));
    assert!(!is_url_expired("not an address", 5000));
    assert!(is_url_expired("https://a.example/x?x-oss-expires=zz&x-oss-expires=10", 0));
}

#[test]
fn reading_an_upload_in_progress_fails() {
    let f = AliyunDavFile::new(entry("", "x", 5), "p".into(), "/".into(), 5, None, 4, false, false);
    assert!(matches!(f.read_step(0), Err(FsError::NotFound)));
}

#[test]
fn stale_download_address_is_refreshed() {
    let mut e = entry("i", "x", 5);
    e.url = Some("https://a.example/x?x-oss-expires=100".into());
    let f = AliyunDavFile::new(e.clone(), "p".into(), "/".into(), 0, None, 4, false, false);
    assert!(matches!(f.read_step(39), Ok(ReadStep::Use(_))));
    assert!(matches!(f.read_step(40), Ok(ReadStep::FetchUrl)));
    e.url = None;
    let g = AliyunDavFile::new(e, "p".into(), "/".into(), 0, None, 4, false, false);
    assert!(matches!(g.read_step(0), Ok(ReadStep::FetchUrl)));
}

#[test]
fn ranged_read_moves_position() {
    let mut f = AliyunDavFile::new(entry("i", "x", 100), "p".into(), "/".into(), 0, None, 4, false, false);
    f.seek(SeekFrom::Start(5)).unwrap();
    match f.read_plan("https://a.example/x".into(), Vec::new(), 10).unwrap() {
        ReadPlan::Range { url, range } => {
            assert_eq!(url, "https://a.example/x");
            assert_eq!(range, "bytes=5-14");
        }
        _ => panic!("expected range"),
    }
    f.range_read_done("https://a.example/x".into(), 10);
    assert_eq!(f.current_pos, 15);
    assert_eq!(f.file.url, Some("https://a.example/x".to_string()));
}

#[test]
fn http_download_rewrites_scheme() {
    let mut f = AliyunDavFile::new(entry("i", "x", 100), "p".into(), "/".into(), 0, None, 4, false, false);
    f.http_download = true;
    match f.read_plan("https://a.example/x?y=1".into(), Vec::new(), 1).unwrap() {
        ReadPlan::Range { url, .. } => assert_eq!(url, "http://a.example/x?y=1"),
        _ => panic!("expected range"),
    }
    assert!(matches!(f.read_plan("::".into(), Vec::new(), 1), Err(FsError::GeneralFailure)));
}

#[test]
fn live_photo_is_built_from_streams() {
    let mut f = AliyunDavFile::new(entry("i", "photo.livp", 512), "p".into(), "/".into(), 0, None, 4, false, false);
    assert!(f.needs_fresh_metadata());
    let streams = vec![("heic".to_string(), "https://u1".to_string()), ("mov".to_string(), "https://u2".to_string())];
    let members = match f.read_plan(String::new(), streams, 10).unwrap() {
        ReadPlan::Streams(m) => m,
        _ => panic!("expected streams"),
    };
    assert_eq!(members[0], ("photo.heic".to_string(), "https://u1".to_string()));
    assert_eq!(members[1].0, "photo.mov");
    let zip = f
        .streams_read_done(vec![("photo.heic".into(), vec![1u8; 100]), ("photo.mov".into(), vec![2u8; 200])])
        .unwrap();
    assert_eq!(zip.len(), 512);
    assert_eq!(&zip[0..4], &[0x50, 0x4b, 0x03, 0x04]);
    let empty = f.streams_read_done(vec![("photo.heic".into(), Vec::new())]).unwrap();
    assert_eq!(empty.len(), 30 + 10 + 46 + 10 + 22);
    assert_eq!(f.current_pos, 300);
    assert!(matches!(f.read_plan(String::new(), Vec::new(), 10), Err(FsError::NotFound)));
}

#[test]
fn seek_from_end_adds_offset() {
    let mut f = AliyunDavFile::new(entry("i", "x", 100), "p".into(), "/".into(), 0, None, 4, false, false);
    assert_eq!(f.seek(SeekFrom::End(-10)).unwrap(), 90);
    assert_eq!(f.seek(SeekFrom::Current(5)).unwrap(), 95);
    assert!(f.seek(SeekFrom::Current(-96)).is_err());
    assert_eq!(f.current_pos, 95);
    assert_eq!(f.seek(SeekFrom::End(0)).unwrap(), 100);
}

#[test]
fn redirects() {
    assert!(redirect_allowed("https://a.example/x"));
    assert!(!redirect_allowed("https://a.example/x?x-oss-additional-headers=referer"));
    assert!(!redirect_allowed(""));
}
