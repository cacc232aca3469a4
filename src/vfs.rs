//! The file system that the WebDAV handler drives: path handling, the decisions of each
//! operation, and which cached listings each change makes stale.
use dashmap::DashMap;
use std::sync::Arc;
use vstd::prelude::*;

use crate::cache::Cache;
use crate::error::FsError;
use crate::file::AliyunDavFile;
use crate::model::{now, AliyunFile, FileType, is_root_entry};
use crate::paths::{child_of, file_name, file_name_of, is_abs_path, normalize_path, normalized, parent_of, parent_path, root_from, root_from_exec};
use crate::text::{chars_of, eq_ignore_ascii_case, eq_ignore_ascii_case_exec, push_str, starts_with, starts_with_exec, string_from_chars};

verus! {

#[verifier::external_type_specification]
#[verifier::external_body]
#[verifier::reject_recursive_types(K)]
#[verifier::reject_recursive_types(V)]
#[verifier::reject_recursive_types(S)]
pub struct ExDashMap<K, V, S>(DashMap<K, V, S>);

/// Default size of one upload part: 16 MiB.
pub const DEFAULT_UPLOAD_BUFFER_SIZE: u64 = 16777216;

/// How a file is opened.
#[derive(Debug, Clone)]
pub struct OpenOptions {
    pub read: bool,
    pub write: bool,
    pub append: bool,
    pub truncate: bool,
    pub create: bool,
    pub create_new: bool,
    /// Declared size of what will be written.
    pub size: Option<u64>,
    /// Checksum hint of the form `algorithm:hex`.
    pub checksum: Option<String>,
}

/// What an open needs looked up: the entry at `path` and its folder at `parent_path`.
#[derive(Debug, Clone)]
pub struct OpenTarget {
    pub path: String,
    pub parent_path: String,
    pub name: String,
    pub sha1: Option<String>,
}

/// A change made through the file system, for working out which listings went stale.
#[derive(Debug, Clone)]
pub enum Mutation {
    CreateDir(String),
    RemoveDir(String),
    RemoveFile(String),
    Copy { to: String },
    Rename { from: String, to: String, is_dir: bool },
    Upload { parent_dir: String },
}

/// How a rename is carried out.
#[derive(Debug, Clone)]
pub enum RenameKind {
    /// Same folder: a new name.
    Rename { name: String },
    /// Another folder, perhaps with a new name.
    Move { new_name: Option<String> },
}

pub open spec fn ds_store() -> Seq<char> {
    seq!['.', 'D', 'S', '_', 'S', 't', 'o', 'r', 'e']
}

pub open spec fn apple_double_prefix() -> Seq<char> {
    seq!['.', '_']
}

/// Metadata files that macOS scatters; creating them is refused.
pub open spec fn is_ignored_name(name: Seq<char>) -> bool {
    name == ds_store() || starts_with(name, apple_double_prefix())
}

pub fn is_ignored_name_exec(name: &Vec<char>) -> (r: bool)
    ensures
        r == is_ignored_name(name@),
{
    let d = vec!['.', 'D', 'S', '_', 'S', 't', 'o', 'r', 'e'];
    let p = vec!['.', '_'];
    assert(d@ =~= ds_store());
    assert(p@ =~= apple_double_prefix());
    let same = name.len() == d.len() && starts_with_exec(name, &d);
    proof {
        if same {
            assert(name@ =~= d@);
        }
        if name@ == d@ {
            assert(name@.subrange(0, d@.len() as int) =~= name@);
        }
    }
    same || starts_with_exec(name, &p)
}

pub open spec fn sha1_seq() -> Seq<char> {
    seq!['s', 'h', 'a', '1']
}

/// The SHA-1 in a checksum hint `algorithm:hex`, where the algorithm is SHA-1 in any case.
pub open spec fn sha1_of_checksum(c: Seq<char>) -> Option<Seq<char>> {
    if exists|i: int| 0 <= i < c.len() && c[i] == ':' {
        let i = choose|i: int|
            0 <= i < c.len() && c[i] == ':' && forall|j: int| 0 <= j < i ==> c[j] != ':';
        if eq_ignore_ascii_case(c.subrange(0, i), sha1_seq()) {
            Some(c.subrange(i + 1, c.len() as int))
        } else {
            None
        }
    } else {
        None
    }
}

pub open spec fn opt_view(o: Option<String>) -> Option<Seq<char>> {
    match o {
        Some(s) => Some(s@),
        None => None,
    }
}

/// The SHA-1 that an open's checksum option announces.
pub open spec fn sha1_hint(c: Option<String>) -> Option<Seq<char>> {
    match c {
        Some(x) => sha1_of_checksum(x@),
        None => None,
    }
}

pub fn sha1_from_checksum(c: &str) -> (r: Option<String>)
    ensures
        match r {
            Some(h) => sha1_of_checksum(c@) == Some(h@),
            None => sha1_of_checksum(c@) is None,
        },
{
    let cs = chars_of(c);
    let mut i: usize = 0;
    while i < cs.len() && cs[i] != ':'
        invariant
            i <= cs@.len(),
            forall|j: int| 0 <= j < i ==> cs@[j] != ':',
        decreases cs.len() - i,
    {
        i = i + 1;
    }
    if i == cs.len() {
        return None;
    }
    proof {
        let k = choose|k: int|
            0 <= k < cs@.len() && cs@[k] == ':' && forall|j: int| 0 <= j < k ==> cs@[j] != ':';
        assert(0 <= i < cs@.len() && cs@[i as int] == ':' && forall|j: int|
            0 <= j < i ==> cs@[j] != ':');
        if k < i {
            assert(cs@[k] != ':');
        }
        if k > i {
            assert(cs@[i as int] != ':');
        }
    }
    let mut algo: Vec<char> = Vec::new();
    let mut j: usize = 0;
    while j < i
        invariant
            i < cs@.len(),
            j <= i,
            algo@ == cs@.subrange(0, j as int),
        decreases i - j,
    {
        algo.push(cs[j]);
        j = j + 1;
        assert(algo@ =~= cs@.subrange(0, j as int));
    }
    let s = vec!['s', 'h', 'a', '1'];
    assert(s@ =~= sha1_seq());
    if !eq_ignore_ascii_case_exec(&algo, &s) {
        return None;
    }
    let mut hash: Vec<char> = Vec::new();
    let mut k: usize = i + 1;
    while k < cs.len()
        invariant
            i < cs@.len(),
            i + 1 <= k <= cs@.len(),
            hash@ == cs@.subrange(i + 1, k as int),
        decreases cs.len() - k,
    {
        hash.push(cs[k]);
        k = k + 1;
        assert(hash@ =~= cs@.subrange(i + 1, k as int));
    }
    Some(string_from_chars(&hash))
}

/// The first entry called `name`.
pub open spec fn first_named(files: Seq<AliyunFile>, name: Seq<char>) -> int
    decreases files.len(),
{
    if files.len() == 0 {
        -1
    } else if files[0].name@ == name {
        0
    } else {
        let k = first_named(files.drop_first(), name);
        if k < 0 {
            -1
        } else {
            k + 1
        }
    }
}

proof fn lemma_first_named(files: Seq<AliyunFile>, name: Seq<char>)
    ensures
        -1 <= first_named(files, name) < files.len(),
        first_named(files, name) >= 0 ==> files[first_named(files, name)].name@ == name,
        forall|j: int|
            0 <= j < files.len() && (first_named(files, name) < 0 || j < first_named(files, name))
                ==> (#[trigger] files[j]).name@ != name,
    decreases files.len(),
{
    if files.len() > 0 && files[0].name@ != name {
        lemma_first_named(files.drop_first(), name);
        assert forall|j: int|
            0 <= j < files.len() && (first_named(files, name) < 0 || j < first_named(files, name))
                implies (#[trigger] files[j]).name@ != name by {
            if j > 0 {
                assert(files[j] == files.drop_first()[j - 1]);
            }
        }
    }
}

/// Looks for the entry called `name` in a listing.
pub fn find_in_list(files: &Vec<AliyunFile>, name: &String) -> (r: Option<AliyunFile>)
    ensures
        first_named(files@, name@) < 0 ==> r is None,
        first_named(files@, name@) >= 0 ==> r == Some(files@[first_named(files@, name@)]),
{
    proof {
        lemma_first_named(files@, name@);
    }
    let mut i: usize = 0;
    while i < files.len()
        invariant
            i <= files@.len(),
            forall|j: int| 0 <= j < i ==> (#[trigger] files@[j]).name@ != name@,
            -1 <= first_named(files@, name@) < files@.len(),
            first_named(files@, name@) >= 0 ==> files@[first_named(files@, name@)].name@ == name@,
            forall|j: int|
                0 <= j < files@.len() && (first_named(files@, name@) < 0 || j < first_named(
                    files@,
                    name@,
                )) ==> (#[trigger] files@[j]).name@ != name@,
        decreases files.len() - i,
    {
        if files[i].name == *name {
            let ghost k = first_named(files@, name@);
            assert(k == i) by {
                if k < 0 || i < k {
                    assert(files@[i as int].name@ != name@);
                }
                if k >= 0 && k < i {
                    assert(files@[k].name@ != name@);
                }
            }
            return Some(files[i].clone());
        }
        i = i + 1;
    }
    proof {
        let k = first_named(files@, name@);
        if k >= 0 {
            assert(files@[k].name@ != name@);
        }
    }
    None
}

/// A listing without its first entry called `name`, the others in order.
pub fn without_named(files: Vec<AliyunFile>, name: &String) -> (r: Vec<AliyunFile>)
    ensures
        first_named(files@, name@) < 0 ==> r@ == files@,
        first_named(files@, name@) >= 0 ==> r@ == files@.remove(first_named(files@, name@)),
{
    proof {
        lemma_first_named(files@, name@);
    }
    let mut out: Vec<AliyunFile> = Vec::new();
    let mut found = false;
    let mut i: usize = 0;
    let ghost k = first_named(files@, name@);
    while i < files.len()
        invariant
            i <= files@.len(),
            k == first_named(files@, name@),
            -1 <= k < files@.len(),
            k >= 0 ==> files@[k].name@ == name@,
            forall|j: int| 0 <= j < files@.len() && (k < 0 || j < k) ==> (#[trigger] files@[j]).name@ != name@,
            found <==> (k >= 0 && k < i),
            !found ==> out@ == files@.subrange(0, i as int),
            found ==> out@ == files@.subrange(0, k) + files@.subrange(k + 1, i as int),
        decreases files.len() - i,
    {
        if !found && files[i].name == *name {
            found = true;
            assert(k == i) by {
                if k < 0 || i < k {
                    assert(files@[i as int].name@ != name@);
                }
            }
            assert(files@.subrange(k + 1, i + 1) =~= Seq::<AliyunFile>::empty());
            assert(out@ =~= files@.subrange(0, k) + files@.subrange(k + 1, i + 1));
        } else {
            proof {
                if !found {
                    assert(k != i) by {
                        if k == i {
                            assert(files@[k].name@ == name@);
                        }
                    }
                }
            }
            out.push(files[i].clone());
            proof {
                if found {
                    assert(out@ =~= files@.subrange(0, k) + files@.subrange(k + 1, i + 1));
                } else {
                    assert(out@ =~= files@.subrange(0, i + 1));
                }
            }
        }
        i = i + 1;
    }
    proof {
        if k >= 0 {
            assert(files@.remove(k) =~= files@.subrange(0, k) + files@.subrange(k + 1, files@.len() as int));
        } else {
            assert(files@.subrange(0, files@.len() as int) =~= files@);
        }
    }
    out
}

/// The listings that go stale with a change: the folder that the changed path is in, the
/// changed folder itself where its contents moved or went away, and for a copy or a rename
/// the target's folder too.
pub open spec fn stale_keys(m: Mutation) -> Seq<Option<Seq<char>>> {
    match m {
        Mutation::CreateDir(p) => seq![parent_of(p@)],
        Mutation::RemoveDir(p) => seq![Some(p@), parent_of(p@)],
        Mutation::RemoveFile(p) => seq![parent_of(p@)],
        Mutation::Copy { to } => seq![Some(to@), parent_of(to@)],
        Mutation::Rename { from, to, is_dir } => if is_dir {
            seq![Some(from@), parent_of(from@), parent_of(to@)]
        } else {
            seq![parent_of(from@), parent_of(to@)]
        },
        Mutation::Upload { parent_dir } => seq![Some(parent_dir@)],
    }
}

/// The keys that `stale_keys` names, leaving out the absent parent of the root.
pub open spec fn keys_of(s: Seq<Option<Seq<char>>>) -> Seq<Seq<char>>
    decreases s.len(),
{
    if s.len() == 0 {
        seq![]
    } else {
        match s.last() {
            Some(k) => keys_of(s.drop_last()).push(k),
            None => keys_of(s.drop_last()),
        }
    }
}

pub open spec fn strings_view(v: Seq<String>) -> Seq<Seq<char>> {
    v.map_values(|s: String| s@)
}

fn push_key(v: &mut Vec<String>, k: Option<Vec<char>>)
    ensures
        match k {
            Some(q) => strings_view(final(v)@) == strings_view(old(v)@).push(q@),
            None => strings_view(final(v)@) == strings_view(old(v)@),
        },
{
    let ghost before = v@;
    match k {
        Some(q) => {
            v.push(string_from_chars(&q));
            assert(strings_view(v@) =~= strings_view(before).push(q@));
        },
        None => {},
    }
}


/// The listings to drop after a change, as paths.
pub fn stale_listing_keys(m: &Mutation) -> (r: Vec<String>)
    ensures
        strings_view(r@) == keys_of(stale_keys(*m)),
{
    let mut v: Vec<String> = Vec::new();
    let ghost e: Seq<Seq<char>> = seq![];
    assert(strings_view(v@) =~= e);
    match m {
        Mutation::CreateDir(p) => {
            push_key(&mut v, parent_path(&chars_of(p.as_str())));
        },
        Mutation::RemoveDir(p) => {
            push_key(&mut v, Some(chars_of(p.as_str())));
            push_key(&mut v, parent_path(&chars_of(p.as_str())));
        },
        Mutation::RemoveFile(p) => {
            push_key(&mut v, parent_path(&chars_of(p.as_str())));
        },
        Mutation::Copy { to } => {
            push_key(&mut v, Some(chars_of(to.as_str())));
            push_key(&mut v, parent_path(&chars_of(to.as_str())));
        },
        Mutation::Rename { from, to, is_dir } => {
            if *is_dir {
                push_key(&mut v, Some(chars_of(from.as_str())));
            }
            push_key(&mut v, parent_path(&chars_of(from.as_str())));
            push_key(&mut v, parent_path(&chars_of(to.as_str())));
        },
        Mutation::Upload { parent_dir } => {
            push_key(&mut v, Some(chars_of(parent_dir.as_str())));
        },
    }
    proof {
        let s = stale_keys(*m);
        reveal_with_fuel(keys_of, 4);
        if s.len() == 1 {
            assert(s.drop_last() =~= Seq::<Option<Seq<char>>>::empty());
        } else if s.len() == 2 {
            assert(s.drop_last().drop_last() =~= Seq::<Option<Seq<char>>>::empty());
        } else {
            assert(s.drop_last().drop_last().drop_last() =~= Seq::<Option<Seq<char>>>::empty());
        }
    }
    v
}

/// Each change drops the listing of the folder that held the changed path; a folder that
/// went away or moved loses its own listing too; a copy or a move drops the target folder's
/// listing.
pub proof fn lemma_stale_keys_cover(m: Mutation)
    ensures
        match m {
            Mutation::CreateDir(p) => (parent_of(p@) is Some ==> keys_of(stale_keys(m)).contains(parent_of(p@)->0)),
            Mutation::RemoveFile(p) => (parent_of(p@) is Some ==> keys_of(stale_keys(m)).contains(parent_of(p@)->0)),
            Mutation::RemoveDir(p) => keys_of(stale_keys(m)).contains(p@) && ((parent_of(p@) is Some ==> keys_of(stale_keys(m)).contains(parent_of(p@)->0))),
            Mutation::Copy { to } => keys_of(stale_keys(m)).contains(to@) && ((parent_of(to@) is Some ==> keys_of(stale_keys(m)).contains(parent_of(to@)->0))),
            Mutation::Rename { from, to, is_dir } => (is_dir ==> keys_of(stale_keys(m)).contains(from@))
                && ((parent_of(from@) is Some ==> keys_of(stale_keys(m)).contains(parent_of(from@)->0)))
                && ((parent_of(to@) is Some ==> keys_of(stale_keys(m)).contains(parent_of(to@)->0))),
            Mutation::Upload { parent_dir } => keys_of(stale_keys(m)).contains(parent_dir@),
        },
{
    let s = stale_keys(m);
    reveal_with_fuel(keys_of, 4);
    if s.len() == 1 {
        assert(s.drop_last() =~= Seq::<Option<Seq<char>>>::empty());
    } else if s.len() == 2 {
        assert(s.drop_last().drop_last() =~= Seq::<Option<Seq<char>>>::empty());
    } else {
        assert(s.drop_last().drop_last().drop_last() =~= Seq::<Option<Seq<char>>>::empty());
    }
    let k = keys_of(s);
    match m {
        Mutation::CreateDir(p) => {
            if let Some(q) = parent_of(p@) {
                assert(s.drop_last() =~= Seq::<Option<Seq<char>>>::empty());
                assert(k =~= seq![q]);
                assert(k[0] == q);
                assert(k.contains(q));
                assert(keys_of(stale_keys(m)).contains(parent_of(p@)->0));
            }
        },
        Mutation::RemoveFile(p) => {
            if let Some(q) = parent_of(p@) {
                assert(k[k.len() - 1] == q);
            }
        },
        Mutation::RemoveDir(p) => {
            assert(k[0] == p@);
            if let Some(q) = parent_of(p@) {
                assert(k[k.len() - 1] == q);
            }
        },
        Mutation::Copy { to } => {
            assert(k[0] == to@);
            if let Some(q) = parent_of(to@) {
                assert(k[k.len() - 1] == q);
            }
        },
        Mutation::Rename { from, to, is_dir } => {
            let k1 = keys_of(s.drop_last());
            if is_dir {
                let k0 = keys_of(s.drop_last().drop_last());
                assert(s.drop_last().drop_last().drop_last() =~= Seq::<Option<Seq<char>>>::empty());
                assert(k0 =~= seq![from@]);
                assert(k1[0] == from@);
                assert(k[0] == from@);
                assert(k.contains(from@));
            }
            if let Some(q) = parent_of(from@) {
                let k2 = keys_of(s.drop_last());
                assert(k2[k2.len() - 1] == q);
                if parent_of(to@) is Some {
                    assert(k[k2.len() - 1] == q);
                }
            }
            if let Some(q) = parent_of(to@) {
                assert(k[k.len() - 1] == q);
            }
        },
        Mutation::Upload { parent_dir } => {
            assert(k[0] == parent_dir@);
        },
    }
}

/// The WebDAV file system over the drive: its root, its caches and its settings.
#[derive(Clone)]
pub struct AliyunDriveFileSystem {
    pub dir_cache: Cache,
    pub uploading: Arc<DashMap<String, Vec<AliyunFile>>>,
    pub root: String,
    pub no_trash: bool,
    pub read_only: bool,
    pub upload_buffer_size: u64,
    pub skip_upload_same_size: bool,
    pub prefer_http_download: bool,
}

/// Relies on `dashmap::DashMap::new`.
#[verifier::external_body]
fn new_upload_index() -> Arc<DashMap<String, Vec<AliyunFile>>> {
    Arc::new(DashMap::new())
}

/// Relies on `dashmap::DashMap::get`: a copy of the pending entries of a folder, if any.
#[verifier::external_body]
fn upload_index_get(m: &Arc<DashMap<String, Vec<AliyunFile>>>, parent_id: &String) -> Option<Vec<AliyunFile>> {
    match m.get(parent_id) {
        Some(r) => Some(r.value().clone()),
        None => None,
    }
}

/// Relies on `dashmap::DashMap::entry` and `Entry::or_default`: adds a pending entry to a
/// folder.
#[verifier::external_body]
fn upload_index_add(m: &Arc<DashMap<String, Vec<AliyunFile>>>, parent_id: String, file: AliyunFile) {
    m.entry(parent_id).or_default().push(file);
}

/// Relies on `dashmap::DashMap::alter`: drops the first pending entry called `name`.
#[verifier::external_body]
fn upload_index_remove(m: &Arc<DashMap<String, Vec<AliyunFile>>>, parent_id: &String, name: &String) {
    m.alter(parent_id, |_, v| without_named(v, name));
}

impl AliyunDriveFileSystem {
    pub open spec fn wf(&self) -> bool {
        is_abs_path(self.root@) && self.upload_buffer_size > 0
    }

    pub open spec fn root_view(&self) -> Seq<char> {
        self.root@
    }

    pub fn new(root: String, cache_size: u64, cache_ttl: u64) -> (r: Self)
        requires
            cache_ttl <= crate::cache::MAX_TTL_SECS,
        ensures
            r.wf(),
            r.root_view() == root_from(root@),
            !r.no_trash,
            !r.read_only,
            r.upload_buffer_size == DEFAULT_UPLOAD_BUFFER_SIZE,
            !r.skip_upload_same_size,
            !r.prefer_http_download,
    {
        let dir_cache = Cache::new(cache_size, cache_ttl);
        let root = string_from_chars(&root_from_exec(root.as_str()));
        AliyunDriveFileSystem {
            dir_cache,
            uploading: new_upload_index(),
            root,
            no_trash: false,
            read_only: false,
            upload_buffer_size: DEFAULT_UPLOAD_BUFFER_SIZE,
            skip_upload_same_size: false,
            prefer_http_download: false,
        }
    }

    pub fn set_read_only(&mut self, read_only: bool)
        ensures
            *final(self) == (AliyunDriveFileSystem { read_only, ..*old(self) }),
    {
        self.read_only = read_only;
    }

    pub fn set_no_trash(&mut self, no_trash: bool)
        ensures
            *final(self) == (AliyunDriveFileSystem { no_trash, ..*old(self) }),
    {
        self.no_trash = no_trash;
    }

    pub fn set_upload_buffer_size(&mut self, upload_buffer_size: u64)
        requires
            upload_buffer_size > 0,
        ensures
            *final(self) == (AliyunDriveFileSystem { upload_buffer_size, ..*old(self) }),
    {
        self.upload_buffer_size = upload_buffer_size;
    }

    pub fn set_skip_upload_same_size(&mut self, skip_upload_same_size: bool)
        ensures
            *final(self) == (AliyunDriveFileSystem { skip_upload_same_size, ..*old(self) }),
    {
        self.skip_upload_same_size = skip_upload_same_size;
    }

    pub fn set_prefer_http_download(&mut self, prefer_http_download: bool)
        ensures
            *final(self) == (AliyunDriveFileSystem { prefer_http_download, ..*old(self) }),
    {
        self.prefer_http_download = prefer_http_download;
    }

    /// A request path with the root applied.
    pub fn normalize_dav_path(&self, path: &str) -> (r: String)
        ensures
            r@ == normalized(self.root_view(), path@),
    {
        let root = chars_of(self.root.as_str());
        let p = chars_of(path);
        string_from_chars(&normalize_path(&root, &p))
    }

    /// Refuses writes in read-only mode.
    pub fn check_writable(&self) -> (r: Result<(), FsError>)
        ensures
            r is Ok <==> !self.read_only,
            r is Err ==> r->Err_0 is Forbidden,
    {
        if self.read_only {
            Err(FsError::Forbidden)
        } else {
            Ok(())
        }
    }

    /// The checks of an open that need no look-up. Appending is not offered; a path with no
    /// folder is not found; creating a macOS metadata file is refused as not found.
    pub fn open_target(&self, path: &str, options: &OpenOptions) -> (r: Result<OpenTarget, FsError>)
        ensures
            options.append ==> r matches Err(FsError::NotImplemented),
            !options.append && parent_of(path@) is None ==> r matches Err(FsError::NotFound),
            !options.append && parent_of(path@) is Some && options.write && (options.create
                || options.create_new) && is_ignored_name(file_name_of(path@)->0)
                ==> r matches Err(FsError::NotFound),
            !options.append && parent_of(path@) is Some && !(options.write && (options.create
                || options.create_new) && is_ignored_name(file_name_of(path@)->0)) ==> r is Ok,
            r matches Ok(t) ==> Some(t.parent_path@) == parent_of(path@) && t.path@ == path@ && Some(
                t.name@,
            ) == file_name_of(path@) && !(options.write && (options.create || options.create_new)
                && is_ignored_name(t.name@)) && opt_view(t.sha1) == sha1_hint(options.checksum),
    {
        if options.append {
            return Err(FsError::NotImplemented);
        }
        let p = chars_of(path);
        let parent = match parent_path(&p) {
            Some(q) => q,
            None => return Err(FsError::NotFound),
        };
        let name = match file_name(&p) {
            Some(n) => n,
            None => return Err(FsError::NotFound),
        };
        if options.write && (options.create || options.create_new) && is_ignored_name_exec(&name) {
            return Err(FsError::NotFound);
        }
        let sha1 = match &options.checksum {
            Some(c) => sha1_from_checksum(c.as_str()),
            None => None,
        };
        Ok(OpenTarget {
            path: string_from_chars(&p),
            parent_path: string_from_chars(&parent),
            name: string_from_chars(&name),
            sha1,
        })
    }
    /// Opens the file once its folder (`parent`) and the entry at the path (`existing`) were
    /// looked up. An exclusive create of a present path fails with `Exists`; a write in
    /// read-only mode is refused; a create of an absent path makes a pending entry with no
    /// id and the declared size, listed under its folder until the upload is done.
    pub fn open_file(
        &self,
        target: OpenTarget,
        parent: Option<AliyunFile>,
        existing: Option<AliyunFile>,
        options: &OpenOptions,
    ) -> (r: Result<AliyunDavFile, FsError>)
        requires
            self.wf(),
        ensures
            parent is None ==> r matches Err(FsError::NotFound),
            parent is Some && existing is Some && options.write && options.create_new
                ==> r matches Err(FsError::Exists),
            parent is Some && existing is Some && options.write && !options.create_new
                && self.read_only ==> r matches Err(FsError::Forbidden),
            parent is Some && existing is None && options.write && (options.create
                || options.create_new) && self.read_only ==> r matches Err(FsError::Forbidden),
            parent is Some && existing is None && !(options.write && (options.create
                || options.create_new)) ==> r matches Err(FsError::NotFound),
            parent is Some && (existing is Some ==> !(options.write && (options.create_new
                || self.read_only))) && (existing is None ==> options.write && (options.create
                || options.create_new) && !self.read_only) ==> r is Ok,
            r matches Ok(f) ==> f.wf() && f.parent_file_id == parent->0.id && f.parent_dir
                == target.parent_path && f.current_pos == 0 && f.http_download
                == self.prefer_http_download && f.upload_buffer_size == self.upload_buffer_size
                && f.upload_state.sha1 == target.sha1 && f.upload_state.size == match options.size {
                Some(n) => n,
                None => 0,
            } && f.upload_state.phase == crate::file::UploadPhase::Idle && match existing {
                Some(e) => f.file == e && !(options.write && (options.create_new
                    || self.read_only)),
                None => f.file.id@.len() == 0 && f.file.name == target.name && f.file.kind
                    == FileType::File && f.file.size == f.upload_state.size && f.file.url is None
                    && f.file.content_hash is None && options.write && (options.create
                    || options.create_new) && !self.read_only,
            },
    {
        let parent = match parent {
            Some(p) => p,
            None => return Err(FsError::NotFound),
        };
        let size = match options.size {
            Some(n) => n,
            None => 0,
        };
        let file = match existing {
            Some(e) => {
                if options.write && options.create_new {
                    return Err(FsError::Exists);
                }
                if options.write && self.read_only {
                    return Err(FsError::Forbidden);
                }
                e
            },
            None => {
                if !(options.write && (options.create || options.create_new)) {
                    return Err(FsError::NotFound);
                }
                if self.read_only {
                    return Err(FsError::Forbidden);
                }
                let t = now();
                let f = AliyunFile {
                    name: target.name.clone(),
                    id: String::new(),
                    kind: FileType::File,
                    created_at: t,
                    updated_at: t,
                    size,
                    url: None,
                    content_hash: None,
                };
                upload_index_add(&self.uploading, parent.id.clone(), f.clone());
                f
            },
        };
        let mut dav_file = AliyunDavFile::new(
            file,
            parent.id,
            target.parent_path,
            size,
            target.sha1,
            self.upload_buffer_size,
            self.skip_upload_same_size,
            self.no_trash,
        );
        dav_file.http_download = self.prefer_http_download;
        Ok(dav_file)
    }

    /// The entry at `path` as far as the cached listing of its folder knows it. The root
    /// is made up locally.
    pub fn find_in_cache(&self, path: &str) -> (r: Result<Option<AliyunFile>, FsError>)
        ensures
            parent_of(path@) is None ==> (r matches Ok(Some(f)) && is_root_entry(f)),
            parent_of(path@) is Some ==> (r matches Ok(Some(f)) ==> Some(f.name@) == file_name_of(path@)),
    {
        let p = chars_of(path);
        match parent_path(&p) {
            None => Ok(Some(AliyunFile::new_root())),
            Some(parent) => {
                let name = match file_name(&p) {
                    Some(n) => string_from_chars(&n),
                    None => return Err(FsError::NotFound),
                };
                let key = string_from_chars(&parent);
                match self.dir_cache.get(&key) {
                    Some(files) => {
                        proof {
                            lemma_first_named(files@, name@);
                        }
                        Ok(find_in_list(&files, &name))
                    },
                    None => Ok(None),
                }
            },
        }
    }

    /// The entries still being uploaded into the folder with id `parent_file_id`.
    pub fn list_uploading_files(&self, parent_file_id: &String) -> Vec<AliyunFile> {
        match upload_index_get(&self.uploading, parent_file_id) {
            Some(v) => v,
            None => Vec::new(),
        }
    }

    /// Forgets a pending entry once its upload is done.
    pub fn remove_uploading_file(&self, parent_file_id: &String, name: &String) {
        upload_index_remove(&self.uploading, parent_file_id, name);
    }

    /// Drops the listings that a change made stale.
    pub fn invalidate_after(&self, m: &Mutation) {
        let keys = stale_listing_keys(m);
        let mut i: usize = 0;
        while i < keys.len()
            decreases keys.len() - i,
        {
            self.dir_cache.invalidate(&keys[i]);
            i = i + 1;
        }
    }

    /// The checks of a new folder at `path` once its parent was looked up: the name to
    /// create.
    pub fn create_dir_check(&self, path: &str, parent: &Option<AliyunFile>) -> (r: Result<String, FsError>)
        ensures
            self.read_only ==> r matches Err(FsError::Forbidden),
            !self.read_only && parent is None ==> r matches Err(FsError::NotFound),
            !self.read_only && parent is Some && parent->0.kind != FileType::Folder ==> r matches Err(
                FsError::Forbidden,
            ),
            r is Ok ==> Some(r->Ok_0@) == file_name_of(path@) && !self.read_only && parent is Some
                && parent->0.kind == FileType::Folder,
            !self.read_only && parent is Some && parent->0.kind == FileType::Folder && file_name_of(
                path@,
            ) is Some ==> r is Ok,
    {
        if self.read_only {
            return Err(FsError::Forbidden);
        }
        match parent {
            None => Err(FsError::NotFound),
            Some(p) => {
                if p.kind != FileType::Folder {
                    return Err(FsError::Forbidden);
                }
                match file_name(&chars_of(path)) {
                    Some(n) => Ok(string_from_chars(&n)),
                    None => Err(FsError::Forbidden),
                }
            },
        }
    }

    /// The checks of a removal once the entry was looked up: its id, and whether it goes to
    /// the recycle bin.
    pub fn remove_check(&self, entry: &Option<AliyunFile>, kind: FileType) -> (r: Result<(String, bool), FsError>)
        ensures
            self.read_only ==> r matches Err(FsError::Forbidden),
            !self.read_only && entry is None ==> r matches Err(FsError::NotFound),
            !self.read_only && entry is Some && entry->0.kind != kind ==> r matches Err(FsError::Forbidden),
            !self.read_only && entry is Some && entry->0.kind == kind ==> r == Ok::<(String, bool), FsError>(
                (entry->0.id, !self.no_trash),
            ),
    {
        if self.read_only {
            return Err(FsError::Forbidden);
        }
        match entry {
            None => Err(FsError::NotFound),
            Some(e) => {
                if e.kind != kind {
                    Err(FsError::Forbidden)
                } else {
                    Ok((e.id.clone(), !self.no_trash))
                }
            },
        }
    }

    /// How a rename from `from` to `to` is done: a new name within one folder, else a move
    /// that carries the target name along.
    pub fn rename_kind(&self, from: &str, to: &str) -> (r: Result<RenameKind, FsError>)
        ensures
            self.read_only ==> r matches Err(FsError::Forbidden),
            !self.read_only && parent_of(from@) == parent_of(to@) ==> match file_name_of(to@) {
                Some(n) => (r matches Ok(RenameKind::Rename { name }) && name@ == n),
                None => r matches Err(FsError::Forbidden),
            },
            !self.read_only && parent_of(from@) != parent_of(to@) ==> (r matches Ok(
                RenameKind::Move { new_name },
            ) && opt_view(new_name) == file_name_of(to@)),
    {
        if self.read_only {
            return Err(FsError::Forbidden);
        }
        let f = chars_of(from);
        let t = chars_of(to);
        let pf = parent_path(&f);
        let pt = parent_path(&t);
        let same = match (&pf, &pt) {
            (None, None) => true,
            (Some(a), Some(b)) => vec_eq(a, b),
            _ => false,
        };
        let name = file_name(&t);
        if same {
            match name {
                Some(n) => Ok(RenameKind::Rename { name: string_from_chars(&n) }),
                None => Err(FsError::Forbidden),
            }
        } else {
            let new_name = match name {
                Some(n) => Some(string_from_chars(&n)),
                None => None,
            };
            Ok(RenameKind::Move { new_name })
        }
    }
}

fn vec_eq(a: &Vec<char>, b: &Vec<char>) -> (r: bool)
    ensures
        r == (a@ == b@),
{
    if a.len() != b.len() {
        return false;
    }
    let mut i: usize = 0;
    while i < a.len()
        invariant
            a@.len() == b@.len(),
            i <= a@.len(),
            forall|j: int| 0 <= j < i ==> a@[j] == b@[j],
        decreases a.len() - i,
    {
        if a[i] != b[i] {
            return false;
        }
        i = i + 1;
    }
    assert(a@ =~= b@);
    true
}

pub open spec fn owncloud_ns() -> Seq<char> {
    "http://owncloud.org/ns"@
}

pub open spec fn checksums_prop() -> Seq<char> {
    "checksums"@
}

/// Whether a property is the OwnCloud `checksums` one, the only one served.
pub fn is_checksums_prop(namespace: &Option<String>, name: &str) -> (r: bool)
    ensures
        r == (opt_view(*namespace) == Some(owncloud_ns()) && name@ == checksums_prop()),
{
    match namespace {
        Some(ns) => vec_eq(&chars_of(ns.as_str()), &chars_of("http://owncloud.org/ns")) && vec_eq(
            &chars_of(name),
            &chars_of("checksums"),
        ),
        None => false,
    }
}

/// The body of the `checksums` property for an entry with content hash `sha1`.
pub open spec fn checksums_xml(sha1: Seq<char>) -> Seq<char> {
    "<?xml version=\"1.0\"?>\n<oc:checksums xmlns:d=\"DAV:\" xmlns:nc=\"http://nextcloud.org/ns\" xmlns:oc=\"http://owncloud.org/ns\">\n<oc:checksum>sha1:"@
        + sha1 + "</oc:checksum>\n</oc:checksums>\n"@
}

/// A property of an entry: the checksums of one that has a content hash; anything else is
/// not offered.
pub fn get_prop(namespace: &Option<String>, name: &str, entry: &AliyunFile) -> (r: Result<Vec<u8>, FsError>)
    ensures
        opt_view(*namespace) == Some(owncloud_ns()) && name@ == checksums_prop() && entry.content_hash is Some
            ==> (r matches Ok(b) && b@ == vstd::utf8::encode_utf8(checksums_xml(entry.content_hash->0@))),
        !(opt_view(*namespace) == Some(owncloud_ns()) && name@ == checksums_prop() && entry.content_hash is Some)
            ==> r matches Err(FsError::NotImplemented),
{
    if is_checksums_prop(namespace, name) {
        match &entry.content_hash {
            Some(h) => {
                let mut v = chars_of(
                    "<?xml version=\"1.0\"?>\n<oc:checksums xmlns:d=\"DAV:\" xmlns:nc=\"http://nextcloud.org/ns\" xmlns:oc=\"http://owncloud.org/ns\">\n<oc:checksum>sha1:",
                );
                push_str(&mut v, h.as_str());
                push_str(&mut v, "</oc:checksum>\n</oc:checksums>\n");
                let s = string_from_chars(&v);
                let b = s.as_str().as_bytes();
                return Ok(vstd::slice::slice_to_vec(b));
            },
            None => {},
        }
    }
    Err(FsError::NotImplemented)
}

/// The non-empty components of `p`, given the component `cur` read so far.
pub open spec fn segments_from(p: Seq<char>, cur: Seq<char>) -> Seq<Seq<char>>
    decreases p.len(),
{
    if p.len() == 0 {
        if cur.len() > 0 {
            seq![cur]
        } else {
            seq![]
        }
    } else if p[0] == '/' {
        (if cur.len() > 0 {
            seq![cur]
        } else {
            seq![]
        }) + segments_from(p.drop_first(), seq![])
    } else {
        segments_from(p.drop_first(), cur.push(p[0]))
    }
}

/// The non-empty components of a path, in order.
pub open spec fn path_segments(p: Seq<char>) -> Seq<Seq<char>> {
    segments_from(p, seq![])
}

/// The names that a look-up walks through, from the root, to reach `path`: each is looked
/// for in the listing of the folder found for the one before.
pub fn walk_segments(path: &str) -> (r: Vec<String>)
    ensures
        strings_view(r@) == path_segments(path@),
{
    let p = chars_of(path);
    let mut out: Vec<String> = Vec::new();
    let mut cur: Vec<char> = Vec::new();
    let mut i: usize = 0;
    assert(p@.subrange(0, p@.len() as int) =~= p@);
    assert(strings_view(out@) =~= Seq::<Seq<char>>::empty());
    assert(Seq::<Seq<char>>::empty() + path_segments(path@) =~= path_segments(path@));
    while i < p.len()
        invariant
            i <= p@.len(),
            p@ == path@,
            strings_view(out@) + segments_from(p@.subrange(i as int, p@.len() as int), cur@)
                == path_segments(path@),
        decreases p.len() - i,
    {
        let ghost rest = p@.subrange(i as int, p@.len() as int);
        assert(rest.drop_first() =~= p@.subrange(i + 1, p@.len() as int));
        assert(rest[0] == p@[i as int]);
        if p[i] == '/' {
            if cur.len() > 0 {
                let ghost before = strings_view(out@);
                out.push(string_from_chars(&cur));
                assert(strings_view(out@) =~= before.push(cur@));
                assert(before.push(cur@) + segments_from(rest.drop_first(), seq![]) =~= before + (
                seq![cur@] + segments_from(rest.drop_first(), seq![])));
                cur = Vec::new();
                assert(cur@ =~= Seq::<char>::empty());
            } else {
                assert(cur@ =~= Seq::<char>::empty());
                assert(Seq::<Seq<char>>::empty() + segments_from(rest.drop_first(), seq![])
                    =~= segments_from(rest.drop_first(), seq![]));
            }
        } else {
            cur.push(p[i]);
        }
        i = i + 1;
    }
    let ghost rest = p@.subrange(i as int, p@.len() as int);
    assert(rest =~= Seq::<char>::empty());
    if cur.len() > 0 {
        let ghost before = strings_view(out@);
        out.push(string_from_chars(&cur));
        assert(strings_view(out@) =~= before.push(cur@));
        assert(before + seq![cur@] =~= before.push(cur@));
    } else {
        assert(strings_view(out@) + Seq::<Seq<char>>::empty() =~= strings_view(out@));
    }
    out
}

/// The id of the folder whose listing `path` asks for: the top folder is `root`; another
/// one is the entry that was looked up for it.
pub fn listing_parent_id(path: &str, found: &Option<AliyunFile>) -> (r: Result<String, FsError>)
    ensures
        path@ == seq!['/'] ==> (r matches Ok(id) && id@ == seq!['r', 'o', 'o', 't']),
        path@ != seq!['/'] && found is None ==> r matches Err(FsError::NotFound),
        path@ != seq!['/'] && found is Some ==> r == Ok::<String, FsError>(found->0.id),
{
    let p = chars_of(path);
    if p.len() == 1 && p[0] == '/' {
        assert(p@ =~= seq!['/']);
        let id = vec!['r', 'o', 'o', 't'];
        assert(id@ =~= seq!['r', 'o', 'o', 't']);
        return Ok(string_from_chars(&id));
    }
    proof {
        if p@.len() == 1 {
            assert(p@ != seq!['/']) by {
                assert(p@[0] != '/');
            }
        }
    }
    match found {
        Some(f) => Ok(f.id.clone()),
        None => Err(FsError::NotFound),
    }
}

/// What one step of a walk found.
#[derive(Debug, Clone)]
pub enum WalkStep {
    /// The name is absent from its folder: the path does not exist.
    Absent,
    /// The folder on the way was found; list it next.
    Continue,
    /// The last name was found: the entry of the path.
    Found(AliyunFile),
}

/// A look-up of a path one folder at a time, from the root, for names that the look-up by
/// path cannot handle.
#[derive(Debug, Clone)]
pub struct PathWalk {
    pub segments: Vec<String>,
    /// Index of the next name to look for.
    pub next: usize,
    /// Path of the folder to list next.
    pub dir: Vec<char>,
    /// Entry of that folder; none for the root.
    pub found: Option<AliyunFile>,
}

impl PathWalk {
    pub fn new(path: &str) -> (r: Self)
        ensures
            strings_view(r.segments@) == path_segments(path@),
            r.next == 0,
            r.dir@ == crate::paths::root_path(),
            r.found is None,
    {
        let mut dir: Vec<char> = Vec::new();
        dir.push('/');
        assert(dir@ =~= crate::paths::root_path());
        PathWalk { segments: walk_segments(path), next: 0, dir, found: None }
    }

    /// Whether every name was found.
    pub fn is_done(&self) -> (r: bool)
        ensures
            r == (self.next >= self.segments@.len()),
    {
        self.next >= self.segments.len()
    }

    /// Takes in the listing of the current folder and looks for the next name in it.
    pub fn step(&mut self, listing: &Vec<AliyunFile>) -> (r: WalkStep)
        requires
            old(self).next < old(self).segments@.len(),
        ensures
            ({
                let seg = old(self).segments@[old(self).next as int]@;
                let k = first_named(listing@, seg);
                &&& k < 0 ==> r is Absent && *final(self) == *old(self)
                &&& k >= 0 ==> final(self).found == Some(listing@[k]) && final(self).dir@ == child_of(
                    old(self).dir@,
                    seg,
                ) && final(self).next == old(self).next + 1 && final(self).segments
                    == old(self).segments
                &&& k >= 0 && old(self).next + 1 == old(self).segments@.len() ==> r == WalkStep::Found(
                    listing@[k],
                )
                &&& k >= 0 && old(self).next + 1 < old(self).segments@.len() ==> r is Continue
            }),
    {
        let total = self.segments.len();
        let seg = self.segments[self.next].clone();
        proof {
            lemma_first_named(listing@, seg@);
        }
        match find_in_list(listing, &seg) {
            None => WalkStep::Absent,
            Some(f) => {
                let segv = chars_of(seg.as_str());
                self.dir = crate::paths::child_path(&self.dir, &segv);
                assert(self.next < total);
                self.next = self.next + 1;
                self.found = Some(f.clone());
                if self.next == total {
                    WalkStep::Found(f)
                } else {
                    WalkStep::Continue
                }
            },
        }
    }
}

/// A folder's listing: what the service lists, then the entries still being uploaded into it.
pub fn merge_uploading(files: Vec<AliyunFile>, pending: Vec<AliyunFile>) -> (r: Vec<AliyunFile>)
    ensures
        r@ == files@ + pending@,
{
    let mut out = files;
    let ghost start = out@;
    let mut i: usize = 0;
    while i < pending.len()
        invariant
            i <= pending@.len(),
            out@ == start + pending@.subrange(0, i as int),
        decreases pending.len() - i,
    {
        out.push(pending[i].clone());
        i = i + 1;
        assert(out@ =~= start + pending@.subrange(0, i as int));
    }
    assert(pending@.subrange(0, pending@.len() as int) =~= pending@);
    out
}

} // verus!
