//! One open file: ranged reads against presigned addresses, and buffered multi-part
//! uploads.
use vstd::prelude::*;
use vstd::utf8::encode_utf8;

use crate::error::FsError;
use crate::model::{
    stream_entry_name, stream_entry_name_exec, AliyunFile, CreateFileWithProofRequest,
    CreateFileWithProofResponse, UploadPartInfo, is_part_request_list,
};
use crate::text::{chars_of, contains, contains_exec, decimal, decimal_chars, ends_with, ends_with_exec, eq_ignore_ascii_case, eq_ignore_ascii_case_exec, parse_u64, parsed_u64, push_all, string_from_chars};

verus! {

// ---------------------------------------------------------------- upload arithmetic

/// Parts of an upload of `size` bytes in parts of `part` bytes: `ceil(size / part)`.
pub open spec fn chunk_count_spec(size: nat, part: nat) -> nat
    recommends
        part > 0,
{
    if size % part == 0 {
        size / part
    } else {
        size / part + 1
    }
}

/// The sizes of the parts that an upload of `size` bytes puts, in order: full parts, and
/// what is left at the end.
pub open spec fn put_sizes(size: nat, part: nat) -> Seq<nat>
    recommends
        part > 0,
    decreases size,
{
    if part == 0 || size == 0 {
        seq![]
    } else if size <= part {
        seq![size]
    } else {
        seq![part] + put_sizes((size - part) as nat, part)
    }
}

pub open spec fn seq_sum(s: Seq<nat>) -> nat
    decreases s.len(),
{
    if s.len() == 0 {
        0
    } else {
        s[0] + seq_sum(s.drop_first())
    }
}

/// Number of parts for an upload.
pub fn chunk_count(size: u64, part: u64) -> (r: u64)
    requires
        part > 0,
    ensures
        r as nat == chunk_count_spec(size as nat, part as nat),
{
    let q = size / part;
    if size % part != 0 {
        assert(q < u64::MAX) by (nonlinear_arith)
            requires
                q == size / part,
                size % part != 0,
                part > 0,
                size <= u64::MAX,
        ;
        q + 1
    } else {
        q
    }
}

/// An upload of `size` bytes in parts of `part` bytes puts `ceil(size / part)` parts, none
/// larger than `part`, that add up to `size`.
pub proof fn lemma_put_sizes(size: nat, part: nat)
    requires
        part > 0,
    ensures
        put_sizes(size, part).len() == chunk_count_spec(size, part),
        seq_sum(put_sizes(size, part)) == size,
        forall|i: int| 0 <= i < put_sizes(size, part).len() ==> #[trigger] put_sizes(size, part)[i] <= part
            && put_sizes(size, part)[i] > 0,
    decreases size,
{
    let s = put_sizes(size, part);
    if size == 0 {
    } else if size <= part {
        assert(s.drop_first() =~= Seq::<nat>::empty());
        assert(seq_sum(s.drop_first()) == 0);
        if size < part {
            assert(size / part == 0) by (nonlinear_arith)
                requires
                    size < part,
                    part > 0,
            ;
            assert(size % part == size) by (nonlinear_arith)
                requires
                    size < part,
                    part > 0,
            ;
        } else {
            assert(size / part == 1) by (nonlinear_arith)
                requires
                    size == part,
                    part > 0,
            ;
            assert(size % part == 0) by (nonlinear_arith)
                requires
                    size == part,
                    part > 0,
            ;
        }
    } else {
        let rest = (size - part) as nat;
        lemma_put_sizes(rest, part);
        assert(s.drop_first() =~= put_sizes(rest, part));
        assert(seq_sum(s) == part + seq_sum(put_sizes(rest, part)));
        assert(size / part == rest / part + 1 && size % part == rest % part) by (nonlinear_arith)
            requires
                rest == size - part,
                part > 0,
        ;
        assert forall|i: int| 0 <= i < s.len() implies #[trigger] s[i] <= part && s[i] > 0 by {
            if i > 0 {
                assert(s[i] == put_sizes(rest, part)[i - 1]);
            }
        }
    }
}

// ---------------------------------------------------------------- addresses

pub open spec fn pairs_view(v: Seq<(String, String)>) -> Seq<(Seq<char>, Seq<char>)> {
    v.map_values(|p: (String, String)| (p.0@, p.1@))
}

/// The bytes of all members together.
pub open spec fn members_bytes(m: Seq<(String, Vec<u8>)>) -> nat
    decreases m.len(),
{
    if m.len() == 0 {
        0
    } else {
        members_bytes(m.drop_last()) + m.last().1@.len()
    }
}

pub open spec fn members_view(v: Seq<(String, Vec<u8>)>) -> Seq<(Seq<char>, Seq<u8>)> {
    v.map_values(|m: (String, Vec<u8>)| (m.0@, m.1@))
}

/// The query pairs of an address (decoded), or none where the text is not an address.
pub uninterp spec fn query_pairs_of(url: Seq<char>) -> Option<Seq<(Seq<char>, Seq<char>)>>;

/// Relies on `url::Url::parse` and `Url::query_pairs`: the decoded pairs in order.
#[verifier::external_body]
fn url_query_pairs(url: &str) -> (r: Option<Vec<(String, String)>>)
    ensures
        match r {
            Some(v) => query_pairs_of(url@) == Some(pairs_view(v@)),
            None => query_pairs_of(url@) is None,
        },
{
    match url::Url::parse(url) {
        Ok(u) => Some(u.query_pairs().map(|(k, v)| (k.into_owned(), v.into_owned())).collect()),
        Err(_) => None,
    }
}

/// The same address with scheme `http`, or none where it does not parse or the scheme
/// cannot be changed.
pub uninterp spec fn http_url_of(url: Seq<char>) -> Option<Seq<char>>;

/// Relies on `url::Url::parse` and `Url::set_scheme("http")`.
#[verifier::external_body]
fn url_with_http_scheme(url: &str) -> (r: Option<String>)
    ensures
        match r {
            Some(s) => http_url_of(url@) == Some(s@),
            None => http_url_of(url@) is None,
        },
{
    match url::Url::parse(url) {
        Ok(mut u) => match u.set_scheme("http") {
            Ok(()) => Some(u.to_string()),
            Err(()) => None,
        },
        Err(_) => None,
    }
}

pub open spec fn oss_expires_key() -> Seq<char> {
    seq!['x', '-', 'o', 's', 's', '-', 'e', 'x', 'p', 'i', 'r', 'e', 's']
}

/// The first `x-oss-expires` pair whose value is a number.
pub open spec fn first_expiry(pairs: Seq<(Seq<char>, Seq<char>)>) -> Option<u64>
    decreases pairs.len(),
{
    if pairs.len() == 0 {
        None
    } else if pairs[0].0 == oss_expires_key() && parsed_u64(pairs[0].1) is Some {
        parsed_u64(pairs[0].1)
    } else {
        first_expiry(pairs.drop_first())
    }
}

/// A presigned address has expired once its `x-oss-expires` (Unix seconds) is at most a
/// minute away. One without it never expires.
pub open spec fn url_expired(url: Seq<char>, now_secs: u64) -> bool {
    match query_pairs_of(url) {
        Some(pairs) => match first_expiry(pairs) {
            Some(e) => e <= now_secs + 60,
            None => false,
        },
        None => false,
    }
}

/// The expiry that a list of decoded query pairs carries.
pub fn expiry_of_pairs(pairs: &Vec<(String, String)>) -> (r: Option<u64>)
    ensures
        r == first_expiry(pairs_view(pairs@)),
{
    let ghost view = pairs_view(pairs@);
    let key = vec!['x', '-', 'o', 's', 's', '-', 'e', 'x', 'p', 'i', 'r', 'e', 's'];
    assert(key@ =~= oss_expires_key());
    assert(view.subrange(0, view.len() as int) =~= view);
    let mut i: usize = 0;
    while i < pairs.len()
        invariant
            i <= pairs@.len(),
            view == pairs_view(pairs@),
            key@ == oss_expires_key(),
            first_expiry(view) == first_expiry(view.subrange(i as int, view.len() as int)),
        decreases pairs.len() - i,
    {
        let ghost rest = view.subrange(i as int, view.len() as int);
        assert(rest[0] == view[i as int]);
        assert(view[i as int] == (pairs@[i as int].0@, pairs@[i as int].1@));
        assert(rest.drop_first() =~= view.subrange(i + 1, view.len() as int));
        let k = chars_of(pairs[i].0.as_str());
        let is_key = k.len() == key.len() && crate::text::starts_with_exec(&k, &key);
        proof {
            if is_key {
                assert(k@ =~= key@);
            }
            if k@ == key@ {
                assert(k@.subrange(0, key@.len() as int) =~= k@);
            }
        }
        if is_key {
            match parse_u64(pairs[i].1.as_str()) {
                Some(e) => {
                    assert(first_expiry(rest) == Some(e));
                    return Some(e);
                },
                None => {},
            }
        }
        i = i + 1;
    }
    None
}

/// Whether a presigned address is expired at `now_secs`.
pub fn is_url_expired(url: &str, now_secs: u64) -> (r: bool)
    ensures
        r == url_expired(url@, now_secs),
{
    match url_query_pairs(url) {
        Some(pairs) => match expiry_of_pairs(&pairs) {
            Some(e) => (e as u128) <= (now_secs as u128) + 60,
            None => false,
        },
        None => false,
    }
}

/// The `Range` header that asks for `count` bytes from `pos`.
pub open spec fn range_header_spec(pos: u64, count: nat) -> Seq<char> {
    seq!['b', 'y', 't', 'e', 's', '='] + decimal(pos as nat) + seq!['-'] + decimal(
        (pos + count - 1) as nat,
    )
}

pub fn range_header(pos: u64, count: u64) -> (r: String)
    requires
        count > 0,
        pos + count - 1 <= u64::MAX,
    ensures
        r@ == range_header_spec(pos, count as nat),
{
    let mut v = vec!['b', 'y', 't', 'e', 's', '='];
    let a = decimal_chars(pos);
    push_all(&mut v, &a);
    v.push('-');
    let b = decimal_chars(pos + (count - 1));
    push_all(&mut v, &b);
    assert(v@ =~= range_header_spec(pos, count as nat));
    string_from_chars(&v)
}

/// A stored (uncompressed) zip archive with the given members, in order.
pub uninterp spec fn stored_zip_of(members: Seq<(Seq<char>, Seq<u8>)>) -> Seq<u8>;

/// Bytes of a stored zip archive with the given members: per member a 30-byte local header,
/// the name, the data, a 46-byte central record and the name again; then a 22-byte end
/// record.
pub open spec fn stored_members_size(m: Seq<(String, Vec<u8>)>) -> nat
    decreases m.len(),
{
    if m.len() == 0 {
        0
    } else {
        stored_members_size(m.drop_last()) + crate::model::zip_member_size(
            encode_utf8(m.last().0@).len(),
            m.last().1@.len(),
        )
    }
}

pub open spec fn stored_zip_size(m: Seq<(String, Vec<u8>)>) -> nat {
    stored_members_size(m) + 22
}

/// No member is too large for an archive without zip64 records.
pub open spec fn members_fit(m: Seq<(String, Vec<u8>)>) -> bool {
    forall|i: int| 0 <= i < m.len() ==> (#[trigger] m[i]).1@.len() <= u32::MAX
}

/// Relies on `zip::ZipWriter` (`start_file` with `CompressionMethod::Stored`, `write_all`,
/// `finish`) over an in-memory `Cursor`. Writing fails only once one member passes
/// `u32::MAX` bytes (no zip64 option is set); the archive holds a local header, the name and
/// the data per member, then a central record per member and the end record, without zip64
/// records as long as every offset stays within `u32::MAX` and there are at most 65535
/// members.
#[verifier::external_body]
fn stored_zip(members: &Vec<(String, Vec<u8>)>) -> (r: Option<Vec<u8>>)
    ensures
        members_fit(members@) ==> r is Some,
        r matches Some(b) ==> b@ == stored_zip_of(members_view(members@)),
        r matches Some(b) ==> (members@.len() <= 65535 && stored_zip_size(members@) <= u32::MAX
            ==> b@.len() == stored_zip_size(members@)),
{
    let mut z = zip::ZipWriter::new(std::io::Cursor::new(Vec::new()));
    let opts = zip::write::FileOptions::default().compression_method(zip::CompressionMethod::Stored);
    for (name, data) in members {
        z.start_file(name.clone(), opts).ok()?;
        std::io::Write::write_all(&mut z, data).ok()?;
    }
    Some(z.finish().ok()?.into_inner())
}

// ---------------------------------------------------------------- the open file

/// Where an upload stands.
#[derive(Debug, Clone, Copy, PartialEq, Eq, Structural)]
pub enum UploadPhase {
    /// Nothing sent yet.
    Idle,
    /// The same content is already there: writes are dropped.
    Skipped,
    /// The remote upload is open.
    Open,
}

/// The write side of an open file.
#[derive(Debug, Clone)]
pub struct UploadState {
    /// Declared size.
    pub size: u64,
    /// Bytes written and not sent yet.
    pub buffer: Vec<u8>,
    pub chunk_count: u64,
    /// Number of the next part to send, from 1.
    pub chunk: u64,
    pub upload_id: String,
    pub upload_urls: Vec<String>,
    /// SHA-1 that the client announced, in hex.
    pub sha1: Option<String>,
    pub phase: UploadPhase,
}

impl Default for UploadState {
    fn default() -> (r: Self)
        ensures
            r.size == 0,
            r.buffer@.len() == 0,
            r.chunk_count == 0,
            r.chunk == 1,
            r.upload_id@.len() == 0,
            r.upload_urls@.len() == 0,
            r.sha1 is None,
            r.phase == UploadPhase::Idle,
    {
        UploadState {
            size: 0,
            buffer: Vec::new(),
            chunk_count: 0,
            chunk: 1,
            upload_id: String::new(),
            upload_urls: Vec::new(),
            sha1: None,
            phase: UploadPhase::Idle,
        }
    }
}

/// What a file handle does before its first write.
#[derive(Debug, Clone)]
pub enum PrepareStep {
    /// The upload is open already, or was skipped.
    Done,
    /// Keep the remote file: same content hash, or same size where that is enough.
    Skip,
    /// Open an upload; first remove the file that is there (by id; to the recycle bin if
    /// `trash`), if any.
    Create { remove: Option<(String, bool)>, request: CreateFileWithProofRequest },
}

/// What a read does first.
#[derive(Debug, Clone)]
pub enum ReadStep {
    /// Read from this address, which is fresh enough.
    Use(String),
    /// Ask for a download address first.
    FetchUrl,
}

/// How to get the bytes of a read.
#[derive(Debug, Clone)]
pub enum ReadPlan {
    /// GET the address with this `Range` header.
    Range { url: String, range: String },
    /// GET each stream whole and return them as a stored zip archive; each member is the
    /// name in the archive and the address.
    Streams(Vec<(String, String)>),
}

/// What a flush does.
#[derive(Debug, Clone)]
pub enum FlushStep {
    /// Nothing was uploaded.
    Nothing,
    /// Commit the upload `upload_id` of file `file_id`.
    Complete { file_id: String, upload_id: String },
    /// No upload id to commit: just forget the pending entry.
    Forget,
}

/// What follows a failed part upload.
#[derive(Debug, Clone, Copy, PartialEq, Eq, Structural)]
pub enum PartFailure {
    /// The part's address expired: ask for fresh addresses and put the part once more.
    Reissue,
    /// Report the failure.
    Fail,
}

/// Where a seek goes.
#[derive(Debug, Clone, Copy, PartialEq, Eq, Structural)]
pub enum SeekFrom {
    Start(u64),
    End(i64),
    Current(i64),
}

/// An open file.
#[derive(Debug, Clone)]
pub struct AliyunDavFile {
    pub file: AliyunFile,
    pub parent_file_id: String,
    pub parent_dir: String,
    pub current_pos: u64,
    pub upload_state: UploadState,
    pub http_download: bool,
    pub upload_buffer_size: u64,
    pub skip_upload_same_size: bool,
    pub no_trash: bool,
}

pub open spec fn expired_seq() -> Seq<char> {
    seq!['e', 'x', 'p', 'i', 'r', 'e', 'd']
}

pub open spec fn livp_suffix() -> Seq<char> {
    seq!['.', 'l', 'i', 'v', 'p']
}

/// Whether a failed part upload failed because its address expired.
pub fn is_expired_failure(message: &str) -> (r: bool)
    ensures
        r == contains(message@, expired_seq()),
{
    let m = chars_of(message);
    let e = vec!['e', 'x', 'p', 'i', 'r', 'e', 'd'];
    assert(e@ =~= expired_seq());
    contains_exec(&m, &e)
}

/// A remote file whose content need not be sent again.
pub open spec fn same_content(f: AliyunFile, s: UploadState, skip_same_size: bool) -> bool {
    f.id@.len() > 0 && ((match (f.content_hash, s.sha1) {
        (Some(h), Some(x)) => eq_ignore_ascii_case(h@, x@),
        _ => false,
    }) || (skip_same_size && f.size == s.size))
}

impl AliyunDavFile {
    pub open spec fn wf(&self) -> bool {
        &&& self.upload_buffer_size > 0
        &&& self.upload_state.chunk >= 1
        &&& self.upload_state.phase == UploadPhase::Open ==> self.upload_state.upload_urls@.len()
            >= self.upload_state.chunk_count
    }

    pub fn new(
        file: AliyunFile,
        parent_file_id: String,
        parent_dir: String,
        size: u64,
        sha1: Option<String>,
        upload_buffer_size: u64,
        skip_upload_same_size: bool,
        no_trash: bool,
    ) -> (r: Self)
        requires
            upload_buffer_size > 0,
        ensures
            r.wf(),
            r.file == file,
            r.parent_file_id == parent_file_id,
            r.parent_dir == parent_dir,
            r.current_pos == 0,
            r.upload_state.size == size,
            r.upload_state.sha1 == sha1,
            r.upload_state.phase == UploadPhase::Idle,
            r.upload_state.buffer@.len() == 0,
            r.upload_state.chunk == 1,
            !r.http_download,
            r.upload_buffer_size == upload_buffer_size,
            r.skip_upload_same_size == skip_upload_same_size,
            r.no_trash == no_trash,
    {
        let mut st = UploadState::default();
        st.size = size;
        st.sha1 = sha1;
        AliyunDavFile {
            file,
            parent_file_id,
            parent_dir,
            current_pos: 0,
            upload_state: st,
            http_download: false,
            upload_buffer_size,
            skip_upload_same_size,
            no_trash,
        }
    }

    /// The first step of a write or a flush. A file that is there is kept where its content
    /// is the same; else it is removed and an upload of `ceil(size / part)` parts is opened.
    pub fn prepare_step(&self, drive_id: String) -> (r: PrepareStep)
        requires
            self.wf(),
        ensures
            self.upload_state.phase != UploadPhase::Idle ==> r is Done,
            self.upload_state.phase == UploadPhase::Idle && same_content(
                self.file,
                self.upload_state,
                self.skip_upload_same_size,
            ) ==> r is Skip,
            self.upload_state.phase == UploadPhase::Idle && !same_content(
                self.file,
                self.upload_state,
                self.skip_upload_same_size,
            ) ==> (r matches PrepareStep::Create { remove, request } && request.drive_id == drive_id
                && request.name == self.file.name && request.parent_file_id == self.parent_file_id
                && request.size == self.upload_state.size && is_part_request_list(
                request.part_info_list@,
                chunk_count_spec(self.upload_state.size as nat, self.upload_buffer_size as nat)
                    as u64,
            ) && (self.file.id@.len() > 0 <==> remove is Some) && (remove matches Some(x) ==> x.0
                == self.file.id && x.1 == !self.no_trash)),
    {
        if self.upload_state.phase != UploadPhase::Idle {
            return PrepareStep::Done;
        }
        let exists = !self.file.id.as_str().is_empty();
        if exists {
            let same_hash = match (&self.file.content_hash, &self.upload_state.sha1) {
                (Some(h), Some(x)) => eq_ignore_ascii_case_exec(
                    &chars_of(h.as_str()),
                    &chars_of(x.as_str()),
                ),
                _ => false,
            };
            if same_hash || (self.skip_upload_same_size && self.file.size == self.upload_state.size) {
                return PrepareStep::Skip;
            }
        }
        let n = chunk_count(self.upload_state.size, self.upload_buffer_size);
        let request = CreateFileWithProofRequest::new(
            drive_id,
            self.file.name.clone(),
            self.parent_file_id.clone(),
            self.upload_state.size,
            n,
        );
        let remove = if exists {
            Some((self.file.id.clone(), !self.no_trash))
        } else {
            None
        };
        PrepareStep::Create { remove, request }
    }

    /// Keeps the remote file as it is: later writes are dropped.
    pub fn skip_upload(&mut self)
        requires
            old(self).wf(),
        ensures
            final(self).wf(),
            *final(self) == (AliyunDavFile {
                upload_state: UploadState { phase: UploadPhase::Skipped, ..old(self).upload_state },
                ..*old(self)
            }),
    {
        self.upload_state.phase = UploadPhase::Skipped;
    }

    /// Takes in the answer to opening the upload. It fails where no upload id came back or
    /// fewer addresses than parts.
    pub fn accept_created(&mut self, res: CreateFileWithProofResponse) -> (r: Result<(), FsError>)
        requires
            old(self).wf(),
            old(self).upload_state.phase == UploadPhase::Idle,
        ensures
            final(self).wf(),
            final(self).file.id == res.file_id,
            final(self).upload_state.chunk_count == chunk_count_spec(
                old(self).upload_state.size as nat,
                old(self).upload_buffer_size as nat,
            ),
            r is Ok <==> (res.upload_id is Some && res.part_info_list@.len()
                >= final(self).upload_state.chunk_count),
            r is Ok ==> final(self).upload_state.phase == UploadPhase::Open && Some(
                final(self).upload_state.upload_id,
            ) == res.upload_id && final(self).upload_state.upload_urls@.len()
                == res.part_info_list@.len() && (forall|i: int|
                0 <= i < res.part_info_list@.len() ==> final(self).upload_state.upload_urls@[i]
                    == (#[trigger] res.part_info_list@[i]).upload_url),
            r is Err ==> r->Err_0 is GeneralFailure && final(self).upload_state.phase
                == UploadPhase::Idle,
            *final(self) == (AliyunDavFile {
                file: AliyunFile { id: res.file_id, ..old(self).file },
                upload_state: UploadState {
                    chunk_count: final(self).upload_state.chunk_count,
                    upload_id: final(self).upload_state.upload_id,
                    upload_urls: final(self).upload_state.upload_urls,
                    phase: final(self).upload_state.phase,
                    ..old(self).upload_state
                },
                ..*old(self)
            }),
    {
        let n = chunk_count(self.upload_state.size, self.upload_buffer_size);
        self.upload_state.chunk_count = n;
        self.file.id = res.file_id;
        let upload_id = match res.upload_id {
            Some(u) => u,
            None => return Err(FsError::GeneralFailure),
        };
        if (res.part_info_list.len() as u64) < n {
            return Err(FsError::GeneralFailure);
        }
        let urls = part_urls(&res.part_info_list);
        self.upload_state.upload_id = upload_id;
        self.upload_state.upload_urls = urls;
        self.upload_state.phase = UploadPhase::Open;
        Ok(())
    }

    /// Takes in fresh part addresses after one expired.
    pub fn replace_upload_urls(&mut self, parts: Vec<UploadPartInfo>) -> (r: Result<(), FsError>)
        requires
            old(self).wf(),
        ensures
            final(self).wf(),
            r is Ok <==> parts@.len() >= old(self).upload_state.chunk_count,
            r is Ok ==> final(self).upload_state.upload_urls@.len() == parts@.len() && (forall|i: int|
                0 <= i < parts@.len() ==> final(self).upload_state.upload_urls@[i] == (
                #[trigger] parts@[i]).upload_url),
            r is Err ==> *final(self) == *old(self),
            *final(self) == (AliyunDavFile {
                upload_state: UploadState {
                    upload_urls: final(self).upload_state.upload_urls,
                    ..old(self).upload_state
                },
                ..*old(self)
            }),
    {
        if (parts.len() as u64) < self.upload_state.chunk_count {
            return Err(FsError::GeneralFailure);
        }
        self.upload_state.upload_urls = part_urls(&parts);
        Ok(())
    }

    /// Appends written bytes to the buffer; nothing is kept once the upload was skipped.
    pub fn append(&mut self, data: &[u8])
        requires
            old(self).wf(),
        ensures
            final(self).wf(),
            old(self).upload_state.phase == UploadPhase::Skipped ==> *final(self) == *old(self),
            old(self).upload_state.phase != UploadPhase::Skipped ==> final(self).upload_state.buffer@
                == old(self).upload_state.buffer@ + data@,
            *final(self) == (AliyunDavFile {
                upload_state: UploadState { buffer: final(self).upload_state.buffer, ..old(self).upload_state },
                ..*old(self)
            }),
    {
        if self.upload_state.phase == UploadPhase::Skipped {
            return;
        }
        let mut i: usize = 0;
        let ghost start = self.upload_state.buffer@;
        while i < data.len()
            invariant
                i <= data@.len(),
                self.upload_state.buffer@ == start + data@.subrange(0, i as int),
                old(self).wf(),
                *self == (AliyunDavFile {
                    upload_state: UploadState { buffer: self.upload_state.buffer, ..old(self).upload_state },
                    ..*old(self)
                }),
            decreases data.len() - i,
        {
            self.upload_state.buffer.push(data[i]);
            i = i + 1;
            assert(self.upload_state.buffer@ =~= start + data@.subrange(0, i as int));
        }
        assert(data@.subrange(0, data@.len() as int) =~= data@);
    }

    /// The next part to put, with its address: a full part once the buffer holds one, or,
    /// at the end (`last`), whatever is left. The bytes leave the buffer.
    pub fn take_chunk(&mut self, last: bool) -> (r: Option<(String, Vec<u8>)>)
        requires
            old(self).wf(),
        ensures
            final(self).wf(),
            ({
                let s = old(self).upload_state;
                let n = s.buffer@.len();
                let b = old(self).upload_buffer_size as nat;
                let k = if n >= b {
                    b
                } else {
                    n
                };
                if s.phase == UploadPhase::Open && s.chunk <= s.chunk_count && k > 0 && (n >= b
                    || last) {
                    r matches Some(p) && p.0 == s.upload_urls@[s.chunk - 1] && p.1@
                        == s.buffer@.subrange(0, k as int) && final(self).upload_state.buffer@
                        == s.buffer@.subrange(k as int, n as int)
                } else {
                    r is None && final(self).upload_state.buffer == s.buffer
                }
            }),
            *final(self) == (AliyunDavFile {
                upload_state: UploadState { buffer: final(self).upload_state.buffer, ..old(self).upload_state },
                ..*old(self)
            }),
    {
        let n = self.upload_state.buffer.len();
        let b = self.upload_buffer_size;
        let k: usize = if (n as u64) >= b {
            b as usize
        } else {
            n
        };
        if self.upload_state.phase == UploadPhase::Open && self.upload_state.chunk
            <= self.upload_state.chunk_count && k > 0 && ((n as u64) >= b || last) {
            let nurls = self.upload_state.upload_urls.len();
            assert(self.upload_state.chunk - 1 < nurls);
            let idx = (self.upload_state.chunk - 1) as usize;
            let url = self.upload_state.upload_urls[idx].clone();
            let mut head: Vec<u8> = Vec::new();
            let mut tail: Vec<u8> = Vec::new();
            let mut i: usize = 0;
            while i < n
                invariant
                    k <= n,
                    n == self.upload_state.buffer@.len(),
                    i <= n,
                    i <= k ==> head@ == self.upload_state.buffer@.subrange(0, i as int) && tail@.len()
                        == 0,
                    i > k ==> head@ == self.upload_state.buffer@.subrange(0, k as int) && tail@
                        == self.upload_state.buffer@.subrange(k as int, i as int),
                decreases n - i,
            {
                if i < k {
                    head.push(self.upload_state.buffer[i]);
                    assert(head@ =~= self.upload_state.buffer@.subrange(0, i + 1));
                } else {
                    tail.push(self.upload_state.buffer[i]);
                    assert(tail@ =~= self.upload_state.buffer@.subrange(k as int, i + 1));
                }
                i = i + 1;
            }
            proof {
                if n == k {
                    assert(tail@ =~= self.upload_state.buffer@.subrange(k as int, n as int));
                }
            }
            self.upload_state.buffer = tail;
            Some((url, head))
        } else {
            None
        }
    }

    /// The step after the `attempt`-th put of the current part (1 or 2) failed with
    /// `message`: only a first failure that says the address expired is retried.
    pub fn part_failed(&self, message: &str, attempt: u32) -> (r: PartFailure)
        ensures
            r == (if attempt == 1 && contains(message@, expired_seq()) {
                PartFailure::Reissue
            } else {
                PartFailure::Fail
            }),
    {
        if attempt == 1 && is_expired_failure(message) {
            PartFailure::Reissue
        } else {
            PartFailure::Fail
        }
    }

    /// The address of the part that is due.
    pub fn current_part_url(&self) -> (r: String)
        requires
            self.wf(),
            self.upload_state.phase == UploadPhase::Open,
            1 <= self.upload_state.chunk <= self.upload_state.chunk_count,
        ensures
            r == self.upload_state.upload_urls@[self.upload_state.chunk - 1],
    {
        let n = self.upload_state.upload_urls.len();
        assert(self.upload_state.chunk - 1 < n);
        self.upload_state.upload_urls[(self.upload_state.chunk - 1) as usize].clone()
    }

    /// A part was put: the next one is due.
    pub fn chunk_uploaded(&mut self)
        requires
            old(self).wf(),
            old(self).upload_state.chunk <= old(self).upload_state.chunk_count,
            old(self).upload_state.chunk < u64::MAX,
        ensures
            final(self).wf(),
            *final(self) == (AliyunDavFile {
                upload_state: UploadState {
                    chunk: (old(self).upload_state.chunk + 1) as u64,
                    ..old(self).upload_state
                },
                ..*old(self)
            }),
    {
        self.upload_state.chunk = self.upload_state.chunk + 1;
    }

    /// What a flush does once the tail was put: commit an open upload.
    pub fn flush_step(&self) -> (r: FlushStep)
        ensures
            self.upload_state.phase != UploadPhase::Open ==> r is Nothing,
            self.upload_state.phase == UploadPhase::Open && self.upload_state.upload_id@.len() > 0
                ==> r == (FlushStep::Complete {
                file_id: self.file.id,
                upload_id: self.upload_state.upload_id,
            }),
            self.upload_state.phase == UploadPhase::Open && self.upload_state.upload_id@.len() == 0
                ==> r is Forget,
    {
        if self.upload_state.phase != UploadPhase::Open {
            FlushStep::Nothing
        } else if self.upload_state.upload_id.as_str().is_empty() {
            FlushStep::Forget
        } else {
            FlushStep::Complete {
                file_id: self.file.id.clone(),
                upload_id: self.upload_state.upload_id.clone(),
            }
        }
    }

    /// The first step of a read. A file still being uploaded cannot be read.
    pub fn read_step(&self, now_secs: u64) -> (r: Result<ReadStep, FsError>)
        ensures
            self.file.id@.len() == 0 ==> r matches Err(FsError::NotFound),
            self.file.id@.len() > 0 ==> match self.file.url {
                Some(u) => if url_expired(u@, now_secs) {
                    r matches Ok(ReadStep::FetchUrl)
                } else {
                    r matches Ok(ReadStep::Use(x)) && x == u
                },
                None => r matches Ok(ReadStep::FetchUrl),
            },
    {
        if self.file.id.as_str().is_empty() {
            return Err(FsError::NotFound);
        }
        match &self.file.url {
            Some(u) => {
                if is_url_expired(u.as_str(), now_secs) {
                    Ok(ReadStep::FetchUrl)
                } else {
                    Ok(ReadStep::Use(u.clone()))
                }
            },
            None => Ok(ReadStep::FetchUrl),
        }
    }

    /// How to read `count` bytes from the current position given the download address
    /// (empty for a Live Photo) and the stream addresses.
    pub fn read_plan(&self, url: String, streams: Vec<(String, String)>, count: u64) -> (r: Result<ReadPlan, FsError>)
        requires
            count > 0,
            self.current_pos + count - 1 <= u64::MAX,
        ensures
            url@.len() > 0 && !self.http_download ==> (r matches Ok(ReadPlan::Range { url: u, range })
                && u == url && range@ == range_header_spec(self.current_pos, count as nat)),
            url@.len() > 0 && self.http_download ==> match http_url_of(url@) {
                Some(h) => r matches Ok(ReadPlan::Range { url: u, range }) && u@ == h && range@
                    == range_header_spec(self.current_pos, count as nat),
                None => r matches Err(FsError::GeneralFailure),
            },
            url@.len() == 0 && streams@.len() == 0 ==> r matches Err(FsError::NotFound),
            url@.len() == 0 && streams@.len() > 0 ==> (r matches Ok(ReadPlan::Streams(m)) && m@.len()
                == streams@.len() && forall|i: int|
                0 <= i < m@.len() ==> (#[trigger] m@[i]).0@ == stream_entry_name(
                    self.file.name@,
                    streams@[i].0@,
                ) && m@[i].1 == streams@[i].1),
    {
        if !url.as_str().is_empty() {
            let u = if self.http_download {
                match url_with_http_scheme(url.as_str()) {
                    Some(h) => h,
                    None => return Err(FsError::GeneralFailure),
                }
            } else {
                url
            };
            let range = range_header(self.current_pos, count);
            Ok(ReadPlan::Range { url: u, range })
        } else if streams.len() == 0 {
            Err(FsError::NotFound)
        } else {
            let mut m: Vec<(String, String)> = Vec::new();
            let mut i: usize = 0;
            while i < streams.len()
                invariant
                    i <= streams@.len(),
                    m@.len() == i,
                    forall|j: int|
                        0 <= j < i ==> (#[trigger] m@[j]).0@ == stream_entry_name(
                            self.file.name@,
                            streams@[j].0@,
                        ) && m@[j].1 == streams@[j].1,
                decreases streams.len() - i,
            {
                let name = stream_entry_name_exec(self.file.name.as_str(), streams[i].0.as_str());
                m.push((name, streams[i].1.clone()));
                i = i + 1;
            }
            Ok(ReadPlan::Streams(m))
        }
    }

    /// A ranged read returned `got` bytes from `url`: the position moves on by that much and
    /// the address is kept for the next read.
    pub fn range_read_done(&mut self, url: String, got: u64)
        requires
            old(self).current_pos + got <= u64::MAX,
        ensures
            *final(self) == (AliyunDavFile {
                current_pos: (old(self).current_pos + got) as u64,
                file: AliyunFile { url: Some(url), ..old(self).file },
                ..*old(self)
            }),
    {
        self.current_pos = self.current_pos + got;
        self.file.url = Some(url);
    }

    /// Builds the archive of a Live Photo from its downloaded streams; the position moves on
    /// by the bytes of the streams (held at `u64::MAX`).
    pub fn streams_read_done(&mut self, members: Vec<(String, Vec<u8>)>) -> (r: Result<Vec<u8>, FsError>)
        ensures
            members_fit(members@) ==> r is Ok,
            r matches Ok(b) ==> b@ == stored_zip_of(members_view(members@)),
            r matches Ok(b) ==> (members@.len() <= 65535 && stored_zip_size(members@) <= u32::MAX
                ==> b@.len() == stored_zip_size(members@)),
            r is Err ==> r->Err_0 is GeneralFailure,
            final(self).current_pos == if old(self).current_pos + members_bytes(members@) > u64::MAX {
                u64::MAX as int
            } else {
                old(self).current_pos + members_bytes(members@)
            },
            *final(self) == (AliyunDavFile { current_pos: final(self).current_pos, ..*old(self) }),
    {
        let mut i: usize = 0;
        while i < members.len()
            invariant
                i <= members@.len(),
                self.current_pos == if old(self).current_pos + members_bytes(members@.subrange(0, i as int))
                    > u64::MAX {
                    u64::MAX as int
                } else {
                    old(self).current_pos + members_bytes(members@.subrange(0, i as int))
                },
                *self == (AliyunDavFile { current_pos: self.current_pos, ..*old(self) }),
            decreases members.len() - i,
        {
            let n = members[i].1.len() as u64;
            proof {
                assert(members@.subrange(0, i + 1).drop_last() =~= members@.subrange(0, i as int));
            }
            self.current_pos = if self.current_pos > u64::MAX - n {
                u64::MAX
            } else {
                self.current_pos + n
            };
            i = i + 1;
        }
        assert(members@.subrange(0, members@.len() as int) =~= members@);
        match stored_zip(&members) {
            Some(b) => Ok(b),
            None => Err(FsError::GeneralFailure),
        }
    }

    /// Moves the position; from the end, the offset is added to the size. A position below
    /// zero or past `u64::MAX` is refused.
    pub fn seek(&mut self, pos: SeekFrom) -> (r: Result<u64, FsError>)
        ensures
            ({
                let target: int = match pos {
                    SeekFrom::Start(p) => p as int,
                    SeekFrom::End(d) => old(self).file.size + d,
                    SeekFrom::Current(d) => old(self).current_pos + d,
                };
                if 0 <= target <= u64::MAX {
                    r == Ok::<u64, FsError>(target as u64) && final(self).current_pos == target
                } else {
                    r matches Err(FsError::GeneralFailure) && final(self).current_pos
                        == old(self).current_pos
                }
            }),
            *final(self) == (AliyunDavFile { current_pos: final(self).current_pos, ..*old(self) }),
    {
        let target: i128 = match pos {
            SeekFrom::Start(p) => p as i128,
            SeekFrom::End(d) => self.file.size as i128 + d as i128,
            SeekFrom::Current(d) => self.current_pos as i128 + d as i128,
        };
        if 0 <= target && target <= u64::MAX as i128 {
            self.current_pos = target as u64;
            Ok(target as u64)
        } else {
            Err(FsError::GeneralFailure)
        }
    }

    /// A Live Photo's size depends on its streams, so its metadata is looked up afresh.
    pub fn needs_fresh_metadata(&self) -> (r: bool)
        ensures
            r == ends_with(self.file.name@, livp_suffix()),
    {
        let n = chars_of(self.file.name.as_str());
        let s = vec!['.', 'l', 'i', 'v', 'p'];
        assert(s@ =~= livp_suffix());
        ends_with_exec(&n, &s)
    }
}

/// The addresses of a list of parts, in order.
fn part_urls(parts: &Vec<UploadPartInfo>) -> (r: Vec<String>)
    ensures
        r@.len() == parts@.len(),
        forall|i: int| 0 <= i < parts@.len() ==> r@[i] == (#[trigger] parts@[i]).upload_url,
{
    let mut r: Vec<String> = Vec::new();
    let mut i: usize = 0;
    while i < parts.len()
        invariant
            i <= parts@.len(),
            r@.len() == i,
            forall|j: int| 0 <= j < i ==> r@[j] == (#[trigger] parts@[j]).upload_url,
        decreases parts.len() - i,
    {
        r.push(parts[i].upload_url.clone());
        i = i + 1;
    }
    r
}

pub open spec fn referer_marker() -> Seq<char> {
    "x-oss-additional-headers=referer"@
}

/// Whether a client may be redirected to a download address: not to one that is signed
/// for a `Referer` header the client would not send.
pub fn redirect_allowed(url: &str) -> (r: bool)
    ensures
        r == (url@.len() > 0 && !contains(url@, referer_marker())),
{
    if url.is_empty() {
        return false;
    }
    let u = chars_of(url);
    let m = chars_of("x-oss-additional-headers=referer");
    !contains_exec(&u, &m)
}

/// The parts that a buffer of written bytes is put in, in order, when it is drained at the
/// end of a write: full parts of `part` bytes, then what is left.
pub open spec fn parts_of(b: Seq<u8>, part: nat) -> Seq<Seq<u8>>
    decreases b.len(),
{
    if part == 0 || b.len() == 0 {
        seq![]
    } else if b.len() <= part {
        seq![b]
    } else {
        seq![b.subrange(0, part as int)] + parts_of(b.subrange(part as int, b.len() as int), part)
    }
}

/// The bytes of a list of parts, one after the other.
pub open spec fn concat(parts: Seq<Seq<u8>>) -> Seq<u8>
    decreases parts.len(),
{
    if parts.len() == 0 {
        seq![]
    } else {
        parts[0] + concat(parts.drop_first())
    }
}

/// Draining a buffer puts its bytes unchanged and in order, in `ceil(len / part)` parts whose
/// sizes are those of `put_sizes`: reading the parts back gives what was written.
pub proof fn lemma_parts_round_trip(b: Seq<u8>, part: nat)
    requires
        part > 0,
    ensures
        concat(parts_of(b, part)) == b,
        parts_of(b, part).len() == put_sizes(b.len(), part).len(),
        forall|i: int|
            0 <= i < parts_of(b, part).len() ==> (#[trigger] parts_of(b, part)[i]).len() == put_sizes(
                b.len(),
                part,
            )[i],
    decreases b.len(),
{
    let ps = parts_of(b, part);
    if b.len() == 0 {
        assert(b =~= Seq::<u8>::empty());
    } else if b.len() <= part {
        assert(ps.drop_first() =~= Seq::<Seq<u8>>::empty());
        assert(concat(ps.drop_first()) == Seq::<u8>::empty());
        assert(b + Seq::<u8>::empty() =~= b);
    } else {
        let rest = b.subrange(part as int, b.len() as int);
        lemma_parts_round_trip(rest, part);
        assert(ps.drop_first() =~= parts_of(rest, part));
        assert(b.subrange(0, part as int) + rest =~= b);
        let sz = put_sizes(b.len(), part);
        assert(sz.drop_first() =~= put_sizes(rest.len(), part)) by {
            assert(rest.len() == (b.len() - part) as nat);
        }
        assert forall|i: int| 0 <= i < ps.len() implies (#[trigger] ps[i]).len() == sz[i] by {
            if i > 0 {
                assert(ps[i] == parts_of(rest, part)[i - 1]);
                assert(sz[i] == put_sizes(rest.len(), part)[i - 1]);
            }
        }
    }
}

/// At the end of a write, the part that is taken is the first part of the buffer's drain,
/// and what stays drains into the remaining parts.
pub proof fn lemma_last_take_is_first_part(b: Seq<u8>, part: nat)
    requires
        part > 0,
        b.len() > 0,
    ensures
        ({
            let k = if b.len() >= part {
                part
            } else {
                b.len()
            };
            &&& parts_of(b, part)[0] == b.subrange(0, k as int)
            &&& parts_of(b.subrange(k as int, b.len() as int), part) == parts_of(b, part).drop_first()
        }),
{
    let k = if b.len() >= part {
        part
    } else {
        b.len()
    };
    if b.len() <= part {
        assert(b.subrange(0, b.len() as int) =~= b);
        assert(b.subrange(k as int, b.len() as int) =~= Seq::<u8>::empty());
        assert(parts_of(b, part).drop_first() =~= Seq::<Seq<u8>>::empty());
    } else {
        assert(parts_of(b, part).drop_first() =~= parts_of(b.subrange(k as int, b.len() as int), part));
    }
}

/// The archive built from a Live Photo's streams is as long as the size its metadata shows:
/// when each member is named after its stream and holds as many bytes as the stream's
/// announced size, the stored archive's size and the Live Photo size are the same number.
pub proof fn lemma_live_photo_size_matches(
    name: Seq<char>,
    streams: Seq<(String, crate::model::StreamInfo)>,
    members: Seq<(String, Vec<u8>)>,
)
    requires
        members.len() == streams.len(),
        forall|i: int|
            0 <= i < members.len() ==> (#[trigger] members[i]).0@ == stream_entry_name(
                name,
                streams[i].0@,
            ) && members[i].1@.len() == streams[i].1.size,
    ensures
        stored_zip_size(members) == crate::model::livp_zip_size(name, streams),
{
    lemma_members_size_matches(name, streams, members);
}

proof fn lemma_members_size_matches(
    name: Seq<char>,
    streams: Seq<(String, crate::model::StreamInfo)>,
    members: Seq<(String, Vec<u8>)>,
)
    requires
        members.len() == streams.len(),
        forall|i: int|
            0 <= i < members.len() ==> (#[trigger] members[i]).0@ == stream_entry_name(
                name,
                streams[i].0@,
            ) && members[i].1@.len() == streams[i].1.size,
    ensures
        stored_members_size(members) == crate::model::zip_members_size(name, streams),
    decreases members.len(),
{
    if members.len() > 0 {
        let m = members.drop_last();
        let t = streams.drop_last();
        assert forall|i: int| 0 <= i < m.len() implies (#[trigger] m[i]).0@ == stream_entry_name(
            name,
            t[i].0@,
        ) && m[i].1@.len() == t[i].1.size by {
            assert(m[i] == members[i]);
            assert(t[i] == streams[i]);
        }
        lemma_members_size_matches(name, t, m);
        assert(members.last() == members[members.len() - 1]);
        assert(streams.last() == streams[streams.len() - 1]);
    }
}

} // verus!
