//! The remote entries and the request and response bodies of the drive API.
use vstd::prelude::*;
use vstd::utf8::encode_utf8;

use crate::text::{chars_of, push_str, replace_all, replace_all_exec, string_from_chars};

verus! {

/// The kind of a remote entry.
#[derive(Debug, Clone, Copy, PartialEq, Eq, Structural)]
pub enum FileType {
    Folder,
    File,
}

/// An instant, as nanoseconds since the Unix epoch.
#[derive(Debug, Clone, Copy, PartialEq, Eq, Structural)]
pub struct DateTime {
    pub unix_nanos: i128,
}

impl DateTime {
    pub fn new(unix_nanos: i128) -> (r: Self)
        ensures
            r.unix_nanos == unix_nanos,
    {
        DateTime { unix_nanos }
    }

    /// Reads an RFC 3339 timestamp such as `2021-08-01T10:00:00.000Z`.
    pub fn parse_rfc3339(s: &str) -> (r: Option<Self>)
        ensures
            match r {
                Some(d) => rfc3339_unix_nanos(s@) == Some(d.unix_nanos as int),
                None => rfc3339_unix_nanos(s@) is None,
            },
    {
        match rfc3339_to_nanos(s) {
            Some(n) => Some(DateTime { unix_nanos: n }),
            None => None,
        }
    }
}

/// The instant that an RFC 3339 timestamp names, in nanoseconds since the Unix epoch,
/// or none where the text is not such a timestamp.
pub uninterp spec fn rfc3339_unix_nanos(s: Seq<char>) -> Option<int>;

/// Relies on `time::OffsetDateTime::parse` with the `Rfc3339` description, and on
/// `OffsetDateTime::unix_timestamp_nanos`.
#[verifier::external_body]
fn rfc3339_to_nanos(s: &str) -> (r: Option<i128>)
    ensures
        match r {
            Some(n) => rfc3339_unix_nanos(s@) == Some(n as int),
            None => rfc3339_unix_nanos(s@) is None,
        },
{
    match time::OffsetDateTime::parse(s, &time::format_description::well_known::Rfc3339) {
        Ok(d) => Some(d.unix_timestamp_nanos()),
        Err(_) => None,
    }
}

/// Nanoseconds since the Unix epoch now, or none for a clock set before the epoch.
/// Relies on `std::time::SystemTime::now` and `SystemTime::duration_since`; nothing is known
/// of the value.
#[verifier::external_body]
fn unix_now_nanos() -> (r: Option<u128>) {
    match std::time::SystemTime::now().duration_since(std::time::UNIX_EPOCH) {
        Ok(d) => Some(d.as_nanos()),
        Err(_) => None,
    }
}

/// The current time; the epoch itself where the clock cannot say.
pub(crate) fn now() -> DateTime {
    match unix_now_nanos() {
        Some(n) if n <= i128::MAX as u128 => DateTime { unix_nanos: n as i128 },
        _ => DateTime { unix_nanos: 0 },
    }
}

/// A remote file or folder.
#[derive(Debug)]
pub struct AliyunFile {
    pub name: String,
    pub id: String,
    pub kind: FileType,
    pub created_at: DateTime,
    pub updated_at: DateTime,
    pub size: u64,
    pub url: Option<String>,
    pub content_hash: Option<String>,
}

fn clone_opt_string(s: &Option<String>) -> (r: Option<String>)
    ensures
        r == *s,
{
    match s {
        Some(x) => Some(x.clone()),
        None => None,
    }
}

impl Clone for AliyunFile {
    fn clone(&self) -> (r: Self)
        ensures
            r == *self,
    {
        AliyunFile {
            name: self.name.clone(),
            id: self.id.clone(),
            kind: self.kind,
            created_at: self.created_at,
            updated_at: self.updated_at,
            size: self.size,
            url: clone_opt_string(&self.url),
            content_hash: clone_opt_string(&self.content_hash),
        }
    }
}

pub open spec fn is_root_entry(f: AliyunFile) -> bool {
    &&& f.name@ == seq!['/']
    &&& f.id@ == seq!['r', 'o', 'o', 't']
    &&& f.kind == FileType::Folder
    &&& f.size == 0
    &&& f.url is None
    &&& f.content_hash is None
    &&& f.created_at == f.updated_at
}

impl AliyunFile {
    /// The top folder, made up locally and never fetched.
    pub fn new_root() -> (r: Self)
        ensures
            is_root_entry(r),
    {
        let t = now();
        let n = vec!['/'];
        let i = vec!['r', 'o', 'o', 't'];
        assert(n@ =~= seq!['/']);
        assert(i@ =~= seq!['r', 'o', 'o', 't']);
        let name = string_from_chars(&n);
        let id = string_from_chars(&i);
        AliyunFile {
            name,
            id,
            kind: FileType::Folder,
            created_at: t,
            updated_at: t,
            size: 0,
            url: None,
            content_hash: None,
        }
    }

    pub fn is_dir(&self) -> (r: bool)
        ensures
            r == (self.kind == FileType::Folder),
    {
        self.kind == FileType::Folder
    }

    /// The size shown to clients.
    pub fn len(&self) -> (r: u64)
        ensures
            r == self.size,
    {
        self.size
    }
}

/// One entry of a folder listing, as the service sends it.
#[derive(Debug, Clone)]
pub struct ListFileItem {
    pub name: String,
    pub category: Option<String>,
    pub id: String,
    pub kind: FileType,
    pub created_at: DateTime,
    pub updated_at: DateTime,
    pub size: Option<u64>,
    pub url: Option<String>,
    pub content_hash: Option<String>,
}

pub open spec fn is_image_category(c: Option<String>) -> bool {
    match c {
        Some(s) => s@ == seq!['i', 'm', 'a', 'g', 'e'],
        None => false,
    }
}

/// A listed entry as an entry: an image's download address is not kept, for the listing
/// gives unreliable ones.
pub open spec fn entry_of_item(f: ListFileItem) -> AliyunFile {
    AliyunFile {
        name: f.name,
        id: f.id,
        kind: f.kind,
        created_at: f.created_at,
        updated_at: f.updated_at,
        size: match f.size {
            Some(n) => n,
            None => 0,
        },
        url: if is_image_category(f.category) {
            None
        } else {
            f.url
        },
        content_hash: f.content_hash,
    }
}

fn is_image(c: &Option<String>) -> (r: bool)
    ensures
        r == is_image_category(*c),
{
    match c {
        Some(s) => {
            let cs = chars_of(s.as_str());
            let image = vec!['i', 'm', 'a', 'g', 'e'];
            if cs.len() != 5 {
                return false;
            }
            let r = cs[0] == image[0] && cs[1] == image[1] && cs[2] == image[2] && cs[3] == image[3]
                && cs[4] == image[4];
            proof {
                if r {
                    assert(cs@ =~= image@);
                }
                assert(image@ =~= seq!['i', 'm', 'a', 'g', 'e']);
            }
            r
        },
        None => false,
    }
}

impl From<ListFileItem> for AliyunFile {
    fn from(f: ListFileItem) -> (r: AliyunFile) {
        let image = is_image(&f.category);
        AliyunFile {
            name: f.name,
            id: f.id,
            kind: f.kind,
            created_at: f.created_at,
            updated_at: f.updated_at,
            size: match f.size {
                Some(n) => n,
                None => 0,
            },
            url: if image {
                None
            } else {
                f.url
            },
            content_hash: f.content_hash,
        }
    }
}

impl vstd::std_specs::convert::FromSpecImpl<ListFileItem> for AliyunFile {
    open spec fn obeys_from_spec() -> bool {
        true
    }

    open spec fn from_spec(f: ListFileItem) -> AliyunFile {
        entry_of_item(f)
    }
}

/// One page of a folder listing; an empty marker means the last page.
#[derive(Debug, Clone)]
pub struct ListFileResponse {
    pub items: Vec<ListFileItem>,
    pub next_marker: String,
}

/// One stream of a container entry (a Live Photo holds a picture and a movie).
#[derive(Debug, Clone)]
pub struct StreamInfo {
    pub size: u64,
}

/// The answer to a look-up by id.
#[derive(Debug, Clone)]
pub struct GetFileResponse {
    pub name: String,
    pub file_extension: String,
    pub id: String,
    pub kind: FileType,
    pub created_at: DateTime,
    pub updated_at: DateTime,
    pub size: u64,
    /// Stream type (such as `heic` or `mov`) and its description.
    pub streams_info: Vec<(String, StreamInfo)>,
}

pub open spec fn livp_seq() -> Seq<char> {
    seq!['l', 'i', 'v', 'p']
}

pub open spec fn dot_livp_seq() -> Seq<char> {
    seq!['.', 'l', 'i', 'v', 'p']
}

/// The name of one stream inside the archive that stands for a Live Photo called `name`.
pub open spec fn stream_entry_name(name: Seq<char>, typ: Seq<char>) -> Seq<char> {
    replace_all(name, dot_livp_seq(), seq![]).push('.') + typ
}

/// Bytes that a stored (uncompressed) zip archive spends on one member: local header,
/// data, and central directory record.
pub open spec fn zip_member_size(name_len: nat, data_len: nat) -> nat {
    30 + name_len + data_len + 46 + name_len
}

/// The size of the stored zip archive with the given streams, before the end record.
pub open spec fn zip_members_size(name: Seq<char>, streams: Seq<(String, StreamInfo)>) -> nat
    decreases streams.len(),
{
    if streams.len() == 0 {
        0
    } else {
        zip_members_size(name, streams.drop_last()) + zip_member_size(
            encode_utf8(stream_entry_name(name, streams.last().0@)).len(),
            streams.last().1.size as nat,
        )
    }
}

/// The size of the stored zip archive with the given streams: members and a 22-byte end
/// record.
pub open spec fn livp_zip_size(name: Seq<char>, streams: Seq<(String, StreamInfo)>) -> nat {
    zip_members_size(name, streams) + 22
}

pub open spec fn is_livp_container(r: GetFileResponse) -> bool {
    r.file_extension@ == livp_seq() && r.streams_info@.len() > 0
}

/// The size shown for a looked-up entry: for a Live Photo, the archive that is built from its
/// streams (held at `u64::MAX` should it be larger).
pub open spec fn response_size(r: GetFileResponse) -> u64 {
    if is_livp_container(r) {
        let z = livp_zip_size(r.name@, r.streams_info@);
        if z > u64::MAX {
            u64::MAX
        } else {
            z as u64
        }
    } else {
        r.size
    }
}

pub open spec fn entry_of_response(r: GetFileResponse) -> AliyunFile {
    AliyunFile {
        name: r.name,
        id: r.id,
        kind: r.kind,
        created_at: r.created_at,
        updated_at: r.updated_at,
        size: response_size(r),
        url: None,
        content_hash: None,
    }
}

/// The name of one stream inside a Live Photo archive.
pub fn stream_entry_name_exec(name: &str, typ: &str) -> (r: String)
    ensures
        r@ == stream_entry_name(name@, typ@),
{
    let n = chars_of(name);
    let pat = vec!['.', 'l', 'i', 'v', 'p'];
    let empty: Vec<char> = Vec::new();
    let mut v = replace_all_exec(&n, &pat, &empty);
    proof {
        assert(pat@ =~= dot_livp_seq());
        assert(empty@ =~= Seq::<char>::empty());
    }
    v.push('.');
    push_str(&mut v, typ);
    string_from_chars(&v)
}

fn is_livp_extension(ext: &String) -> (r: bool)
    ensures
        r == (ext@ == livp_seq()),
{
    let cs = chars_of(ext.as_str());
    let r = cs.len() == 4 && cs[0] == 'l' && cs[1] == 'i' && cs[2] == 'v' && cs[3] == 'p';
    proof {
        if r {
            assert(cs@ =~= livp_seq());
        }
    }
    r
}

/// The size of the stored zip archive that stands for a Live Photo.
pub fn livp_size(name: &String, streams: &Vec<(String, StreamInfo)>) -> (r: u64)
    ensures
        r as nat == if livp_zip_size(name@, streams@) > u64::MAX {
            u64::MAX as nat
        } else {
            livp_zip_size(name@, streams@)
        },
{
    let mut total: u64 = 0;
    let mut over = false;
    let mut i: usize = 0;
    while i < streams.len()
        invariant
            i <= streams@.len(),
            over ==> zip_members_size(name@, streams@.subrange(0, i as int)) > u64::MAX,
            !over ==> total as nat == zip_members_size(name@, streams@.subrange(0, i as int)),
        decreases streams.len() - i,
    {
        let entry_name = stream_entry_name_exec(name.as_str(), streams[i].0.as_str());
        let name_len = entry_name.as_str().as_bytes().len() as u64;
        let data_len = streams[i].1.size;
        proof {
            assert(streams@.subrange(0, i + 1).drop_last() =~= streams@.subrange(0, i as int));
            assert(streams@.subrange(0, i + 1).last() == streams@[i as int]);
            assert(name_len as nat == encode_utf8(stream_entry_name(name@, streams@[i as int].0@)).len());
        }
        if !over {
            let member = (76u128 + 2 * (name_len as u128) + data_len as u128);
            if (total as u128) + member > u64::MAX as u128 {
                over = true;
            } else {
                total = ((total as u128) + member) as u64;
            }
        }
        i = i + 1;
    }
    assert(streams@.subrange(0, streams@.len() as int) =~= streams@);
    if over || total > u64::MAX - 22 {
        u64::MAX
    } else {
        total + 22
    }
}

impl From<GetFileResponse> for AliyunFile {
    fn from(res: GetFileResponse) -> (r: AliyunFile) {
        let size = if !is_livp_extension(&res.file_extension) || res.streams_info.len() == 0 {
            res.size
        } else {
            livp_size(&res.name, &res.streams_info)
        };
        AliyunFile {
            name: res.name,
            id: res.id,
            kind: res.kind,
            created_at: res.created_at,
            updated_at: res.updated_at,
            size,
            url: None,
            content_hash: None,
        }
    }
}

impl vstd::std_specs::convert::FromSpecImpl<GetFileResponse> for AliyunFile {
    open spec fn obeys_from_spec() -> bool {
        true
    }

    open spec fn from_spec(r: GetFileResponse) -> AliyunFile {
        entry_of_response(r)
    }
}


/// One part of a multi-part upload: its number, from 1, and the address to put it to.
#[derive(Debug, Clone)]
pub struct UploadPartInfo {
    pub part_number: u64,
    pub upload_url: String,
}

/// The older name of an upload part.
pub type PartInfo = UploadPartInfo;

/// Parts `1..=n`, with no address yet, as a request asks for them.
pub open spec fn is_part_request_list(parts: Seq<UploadPartInfo>, n: u64) -> bool {
    &&& parts.len() == n
    &&& forall|i: int|
        0 <= i < parts.len() ==> (#[trigger] parts[i]).part_number == i + 1
            && parts[i].upload_url@.len() == 0
}

/// The part list that asks for `chunk_count` upload addresses.
pub fn part_request_list(chunk_count: u64) -> (r: Vec<UploadPartInfo>)
    ensures
        is_part_request_list(r@, chunk_count),
{
    let mut v: Vec<UploadPartInfo> = Vec::new();
    let mut k: u64 = 0;
    while k < chunk_count
        invariant
            k <= chunk_count,
            is_part_request_list(v@, k),
        decreases chunk_count - k,
    {
        v.push(UploadPartInfo { part_number: k + 1, upload_url: String::new() });
        k = k + 1;
    }
    v
}

/// Asks for one page (at most 200 entries) of a folder, newest first.
#[derive(Debug, Clone)]
pub struct ListFileRequest {
    pub drive_id: String,
    pub parent_file_id: String,
    pub limit: u64,
    pub fields: String,
    pub order_by: String,
    pub order_direction: String,
    pub marker: Option<String>,
}

impl ListFileRequest {
    pub fn new(drive_id: String, parent_file_id: String, marker: Option<String>) -> (r: Self)
        ensures
            r.drive_id == drive_id,
            r.parent_file_id == parent_file_id,
            r.marker == marker,
            r.limit == 200,
            r.fields@ == "*"@,
            r.order_by@ == "updated_at"@,
            r.order_direction@ == "DESC"@,
    {
        ListFileRequest {
            drive_id,
            parent_file_id,
            limit: 200,
            fields: String::from_str("*"),
            order_by: String::from_str("updated_at"),
            order_direction: String::from_str("DESC"),
            marker,
        }
    }
}

#[derive(Debug, Clone)]
pub struct GetFileByPathRequest {
    pub drive_id: String,
    pub file_path: String,
}

#[derive(Debug, Clone)]
pub struct GetFileRequest {
    pub drive_id: String,
    pub file_id: String,
}

/// Asks for a download address that lives four hours.
#[derive(Debug, Clone)]
pub struct GetFileDownloadUrlRequest {
    pub drive_id: String,
    pub file_id: String,
    pub expire_sec: u64,
}

impl GetFileDownloadUrlRequest {
    pub fn new(drive_id: String, file_id: String) -> (r: Self)
        ensures
            r.drive_id == drive_id,
            r.file_id == file_id,
            r.expire_sec == 14400,
    {
        GetFileDownloadUrlRequest { drive_id, file_id, expire_sec: 14400 }
    }
}

/// A download address; a Live Photo has none of its own, only one per stream.
#[derive(Debug, Clone)]
pub struct GetFileDownloadUrlResponse {
    pub url: String,
    pub streams_url: Vec<(String, String)>,
    pub expiration: String,
    pub method: String,
}

#[derive(Debug, Clone)]
pub struct TrashRequest {
    pub drive_id: String,
    pub file_id: String,
}

#[derive(Debug, Clone)]
pub struct DeleteFileRequest {
    pub drive_id: String,
    pub file_id: String,
}

/// Creates a folder; an existing name is refused.
#[derive(Debug, Clone)]
pub struct CreateFolderRequest {
    pub check_name_mode: String,
    pub drive_id: String,
    pub name: String,
    pub parent_file_id: String,
    pub kind: String,
}

impl CreateFolderRequest {
    pub fn new(drive_id: String, parent_file_id: String, name: String) -> (r: Self)
        ensures
            r.drive_id == drive_id,
            r.parent_file_id == parent_file_id,
            r.name == name,
            r.check_name_mode@ == "refuse"@,
            r.kind@ == "folder"@,
    {
        CreateFolderRequest {
            check_name_mode: String::from_str("refuse"),
            drive_id,
            name,
            parent_file_id,
            kind: String::from_str("folder"),
        }
    }
}

#[derive(Debug, Clone)]
pub struct RenameFileRequest {
    pub drive_id: String,
    pub file_id: String,
    pub name: String,
}

#[derive(Debug, Clone)]
pub struct MoveFileRequest {
    pub drive_id: String,
    pub file_id: String,
    pub to_parent_file_id: String,
    pub new_name: Option<String>,
}

/// Copies an entry into another folder, without renaming on a clash.
#[derive(Debug, Clone)]
pub struct CopyFileRequest {
    pub drive_id: String,
    pub file_id: String,
    pub to_parent_file_id: String,
    pub auto_rename: bool,
}

impl CopyFileRequest {
    pub fn new(drive_id: String, file_id: String, to_parent_file_id: String) -> (r: Self)
        ensures
            r.drive_id == drive_id,
            r.file_id == file_id,
            r.to_parent_file_id == to_parent_file_id,
            !r.auto_rename,
    {
        CopyFileRequest { drive_id, file_id, to_parent_file_id, auto_rename: false }
    }
}

/// Opens a multi-part upload of a new file.
#[derive(Debug, Clone)]
pub struct CreateFileWithProofRequest {
    pub check_name_mode: String,
    pub content_hash: String,
    pub content_hash_name: String,
    pub drive_id: String,
    pub name: String,
    pub parent_file_id: String,
    pub proof_code: String,
    pub proof_version: String,
    pub size: u64,
    pub part_info_list: Vec<UploadPartInfo>,
    pub kind: String,
}

impl CreateFileWithProofRequest {
    pub fn new(drive_id: String, name: String, parent_file_id: String, size: u64, chunk_count: u64) -> (r: Self)
        ensures
            r.drive_id == drive_id,
            r.name == name,
            r.parent_file_id == parent_file_id,
            r.size == size,
            is_part_request_list(r.part_info_list@, chunk_count),
            r.check_name_mode@ == "refuse"@,
            r.content_hash@.len() == 0,
            r.content_hash_name@ == "none"@,
            r.proof_code@.len() == 0,
            r.proof_version@ == "v1"@,
            r.kind@ == "file"@,
    {
        CreateFileWithProofRequest {
            check_name_mode: String::from_str("refuse"),
            content_hash: String::new(),
            content_hash_name: String::from_str("none"),
            drive_id,
            name,
            parent_file_id,
            proof_code: String::new(),
            proof_version: String::from_str("v1"),
            size,
            part_info_list: part_request_list(chunk_count),
            kind: String::from_str("file"),
        }
    }
}

/// The answer to opening an upload, and to asking for fresh part addresses.
#[derive(Debug, Clone)]
pub struct CreateFileWithProofResponse {
    pub part_info_list: Vec<UploadPartInfo>,
    pub file_id: String,
    pub upload_id: Option<String>,
    pub file_name: String,
}

#[derive(Debug, Clone)]
pub struct CompleteUploadRequest {
    pub drive_id: String,
    pub file_id: String,
    pub upload_id: String,
}

/// Asks for fresh addresses of all parts of an upload.
#[derive(Debug, Clone)]
pub struct GetUploadUrlRequest {
    pub drive_id: String,
    pub file_id: String,
    pub upload_id: String,
    pub part_info_list: Vec<UploadPartInfo>,
}

impl GetUploadUrlRequest {
    pub fn new(drive_id: String, file_id: String, upload_id: String, chunk_count: u64) -> (r: Self)
        ensures
            r.drive_id == drive_id,
            r.file_id == file_id,
            r.upload_id == upload_id,
            is_part_request_list(r.part_info_list@, chunk_count),
    {
        GetUploadUrlRequest { drive_id, file_id, upload_id, part_info_list: part_request_list(chunk_count) }
    }
}

#[derive(Debug, Clone)]
pub struct SpaceInfo {
    pub total_size: u64,
    pub used_size: u64,
}

#[derive(Debug, Clone)]
pub struct GetSpaceInfoResponse {
    pub personal_space_info: SpaceInfo,
}

impl GetSpaceInfoResponse {
    /// Used and total bytes.
    pub fn quota(&self) -> (r: (u64, u64))
        ensures
            r == (self.personal_space_info.used_size, self.personal_space_info.total_size),
    {
        (self.personal_space_info.used_size, self.personal_space_info.total_size)
    }
}

#[derive(Debug, Clone)]
pub struct RefreshTokenResponse {
    pub access_token: String,
    pub refresh_token: String,
    pub expires_in: u64,
    pub token_type: String,
}

/// Which of the user's drives to serve.
#[derive(Debug, Clone, Copy, PartialEq, Eq, Structural)]
pub enum DriveType {
    Resource,
    Backup,
    Default,
}

#[derive(Debug, Clone)]
pub struct GetDriveInfoResponse {
    pub default_drive_id: String,
    pub resource_drive_id: Option<String>,
    pub backup_drive_id: Option<String>,
}

/// The drive that a choice of drive type names: the default drive where none was chosen or
/// where the chosen one does not exist.
pub open spec fn selected_drive_id(res: GetDriveInfoResponse, t: Option<DriveType>) -> String {
    match t {
        Some(DriveType::Resource) => match res.resource_drive_id {
            Some(id) => id,
            None => res.default_drive_id,
        },
        Some(DriveType::Backup) => match res.backup_drive_id {
            Some(id) => id,
            None => res.default_drive_id,
        },
        _ => res.default_drive_id,
    }
}

impl GetDriveInfoResponse {
    pub fn drive_id_for(self, drive_type: Option<DriveType>) -> (r: String)
        ensures
            r == selected_drive_id(self, drive_type),
    {
        match drive_type {
            Some(DriveType::Resource) => match self.resource_drive_id {
                Some(id) => id,
                None => self.default_drive_id,
            },
            Some(DriveType::Backup) => match self.backup_drive_id {
                Some(id) => id,
                None => self.default_drive_id,
            },
            _ => self.default_drive_id,
        }
    }
}

/// Where the service is and how this client identifies itself to it.
#[derive(Debug, Clone)]
pub struct DriveConfig {
    pub api_base_url: String,
    pub refresh_token_host: String,
    pub workdir: Option<String>,
    pub client_id: Option<String>,
    pub client_secret: Option<String>,
    pub drive_type: Option<DriveType>,
}

/// A page of a listing as entries, and the marker of the next page (none after the last).
pub open spec fn page_entries(items: Seq<ListFileItem>) -> Seq<AliyunFile> {
    items.map_values(|f: ListFileItem| entry_of_item(f))
}

impl ListFileResponse {
    pub fn into_page(self) -> (r: (Vec<AliyunFile>, Option<String>))
        ensures
            r.0@ == page_entries(self.items@),
            self.next_marker@.len() == 0 ==> r.1 is None,
            self.next_marker@.len() > 0 ==> r.1 == Some(self.next_marker),
    {
        let mut out: Vec<AliyunFile> = Vec::new();
        let mut i: usize = 0;
        while i < self.items.len()
            invariant
                i <= self.items@.len(),
                out@ == page_entries(self.items@).subrange(0, i as int),
            decreases self.items.len() - i,
        {
            let f = AliyunFile::from(clone_item(&self.items[i]));
            out.push(f);
            i = i + 1;
            assert(out@ =~= page_entries(self.items@).subrange(0, i as int));
        }
        assert(out@ =~= page_entries(self.items@));
        let marker = if self.next_marker.as_str().is_empty() {
            None
        } else {
            Some(self.next_marker)
        };
        (out, marker)
    }
}

fn clone_item(f: &ListFileItem) -> (r: ListFileItem)
    ensures
        r == *f,
{
    ListFileItem {
        name: f.name.clone(),
        category: clone_opt_string(&f.category),
        id: f.id.clone(),
        kind: f.kind,
        created_at: f.created_at,
        updated_at: f.updated_at,
        size: f.size,
        url: clone_opt_string(&f.url),
        content_hash: clone_opt_string(&f.content_hash),
    }
}

/// The fields of a token refresh: the token, the grant type, and the client's identity
/// where it is configured.
pub open spec fn refresh_fields_with_id(token: Seq<char>, client_id: Option<String>) -> Seq<(Seq<char>, Seq<char>)> {
    let base = seq![("refresh_token"@, token), ("grant_type"@, "refresh_token"@)];
    match client_id {
        Some(c) => base.push(("client_id"@, c@)),
        None => base,
    }
}

pub open spec fn refresh_fields(token: Seq<char>, client_id: Option<String>, client_secret: Option<String>) -> Seq<(Seq<char>, Seq<char>)> {
    let with_id = refresh_fields_with_id(token, client_id);
    match client_secret {
        Some(c) => with_id.push(("client_secret"@, c@)),
        None => with_id,
    }
}

impl DriveConfig {
    /// The form of a token refresh with this configuration.
    pub fn refresh_request(&self, refresh_token: &str) -> (r: Vec<(String, String)>)
        ensures
            crate::file::pairs_view(r@) == refresh_fields(
                refresh_token@,
                self.client_id,
                self.client_secret,
            ),
    {
        let mut v: Vec<(String, String)> = Vec::new();
        v.push((String::from_str("refresh_token"), String::from_str(refresh_token)));
        v.push((String::from_str("grant_type"), String::from_str("refresh_token")));
        let ghost b = seq![("refresh_token"@, refresh_token@), ("grant_type"@, "refresh_token"@)];
        assert(crate::file::pairs_view(v@) =~= b);
        match &self.client_id {
            Some(c) => {
                v.push((String::from_str("client_id"), c.clone()));
            },
            None => {},
        }
        let ghost w = refresh_fields_with_id(refresh_token@, self.client_id);
        assert(crate::file::pairs_view(v@) =~= w);
        match &self.client_secret {
            Some(c) => {
                v.push((String::from_str("client_secret"), c.clone()));
            },
            None => {},
        }
        assert(crate::file::pairs_view(v@) =~= refresh_fields(
            refresh_token@,
            self.client_id,
            self.client_secret,
        ));
        v
    }
}

/// A look-up by path that needs no call: the top folder, named `/` or by the empty path.
pub fn local_lookup(path: &str) -> (r: Option<AliyunFile>)
    ensures
        (path@ == seq!['/'] || path@.len() == 0) ==> (r matches Some(f) && is_root_entry(f)),
        !(path@ == seq!['/'] || path@.len() == 0) ==> r is None,
{
    let p = chars_of(path);
    if p.len() == 0 || (p.len() == 1 && p[0] == '/') {
        proof {
            if p@.len() == 1 {
                assert(p@ =~= seq!['/']);
            }
        }
        Some(AliyunFile::new_root())
    } else {
        proof {
            if p@.len() == 1 {
                assert(p@[0] != '/');
                assert(p@ != seq!['/']);
            }
        }
        None
    }
}

} // verus!
