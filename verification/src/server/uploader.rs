//! The uploaded files of a site: a small database of files kept in step
//! with the upload directory. What the directory holds is read by the
//! program and handed in.
use vstd::prelude::*;
use crate::server::errors::{ServerError, UploaderError};
use crate::sys::{extension_of, file_stem_of, path_extension, path_file_stem, paths_equal, same_path};
use crate::text::{
    chars_of, owned, push_str, push_all, string_of, trim_char, trim_matching, has_prefix,
    starts_with, joined_path, join_path, decimal, decimal_chars,
};

verus! {

/// An uploaded file: its number, its name, where it is stored and its
/// size in bytes.
#[derive(Debug)]
pub struct File {
    pub id: i32,
    pub name: String,
    pub path: String,
    pub size: u64,
}

/// A file is viewed as its number, name, path and size.
impl View for File {
    type V = (i32, Seq<char>, Seq<char>, u64);

    open spec fn view(&self) -> (i32, Seq<char>, Seq<char>, u64) {
        (self.id, self.name@, self.path@, self.size)
    }
}

impl Clone for File {
    fn clone(&self) -> (r: Self)
        ensures
            r@ == self@,
    {
        File { id: self.id, name: owned(self.name.as_str()), path: owned(self.path.as_str()), size: self.size }
    }
}

/// An entry of the upload directory as the program read it: its name
/// (`None` when it is not UTF-8), its name with invalid UTF-8 replaced,
/// its path and its size.
#[derive(Debug)]
pub struct DirEntryInfo {
    pub name: Option<String>,
    pub lossy_name: String,
    pub path: String,
    pub size: u64,
}

/// The files of the upload directory and where it is.
#[derive(Debug, Clone)]
pub struct Uploader {
    database: Vec<File>,
    pub upload_dir: String,
}

/// The views of a list of files.
pub open spec fn file_views(v: Seq<File>) -> Seq<(i32, Seq<char>, Seq<char>, u64)> {
    v.map_values(|f: File| f@)
}

/// No two files have the same number.
pub open spec fn distinct_ids(fs: Seq<(i32, Seq<char>, Seq<char>, u64)>) -> bool {
    forall|i: int, j: int| 0 <= i < fs.len() && 0 <= j < fs.len() && i != j ==> #[trigger] fs[i].0 != #[trigger] fs[j].0
}

/// The largest number of the files, `-1` when there are none.
pub open spec fn max_id(fs: Seq<(i32, Seq<char>, Seq<char>, u64)>) -> int
    decreases fs.len(),
{
    if fs.len() == 0 {
        -1
    } else {
        let m = max_id(fs.drop_last());
        if fs.last().0 > m {
            fs.last().0 as int
        } else {
            m
        }
    }
}

/// Every number is at most `max_id`, and `max_id` is `-1` or a number.
pub proof fn lemma_max_id(fs: Seq<(i32, Seq<char>, Seq<char>, u64)>)
    ensures
        forall|i: int| 0 <= i < fs.len() ==> #[trigger] fs[i].0 <= max_id(fs),
        max_id(fs) == -1 || exists|i: int| 0 <= i < fs.len() && #[trigger] fs[i].0 == max_id(fs),
        max_id(fs) >= -1,
    decreases fs.len(),
{
    if fs.len() > 0 {
        let pre = fs.drop_last();
        lemma_max_id(pre);
        assert forall|i: int| 0 <= i < fs.len() implies #[trigger] fs[i].0 <= max_id(fs) by {
            if i < fs.len() - 1 {
                assert(fs[i] == pre[i]);
            }
        }
        if max_id(fs) != -1 && max_id(fs) != fs.last().0 {
            let k = choose|i: int| 0 <= i < pre.len() && #[trigger] pre[i].0 == max_id(pre);
            assert(fs[k] == pre[k]);
        }
    }
}

/// A file recorded after the files `fs` (numbered one past their largest
/// number, as `record_file` does) has a number no other file has, so the
/// file found by that number (`get_file`) is the one recorded.
pub proof fn law_recorded_file_found(
    fs: Seq<(i32, Seq<char>, Seq<char>, u64)>,
    f: (i32, Seq<char>, Seq<char>, u64),
    g: (i32, Seq<char>, Seq<char>, u64),
)
    requires
        distinct_ids(fs),
        f.0 == max_id(fs) + 1,
        fs.push(f).contains(g),
        g.0 == f.0,
    ensures
        g == f,
        distinct_ids(fs.push(f)),
{
    lemma_max_id(fs);
    let k = choose|k: int| 0 <= k < fs.push(f).len() && fs.push(f)[k] == g;
    if k < fs.len() {
        assert(fs.push(f)[k] == fs[k]);
        assert(fs[k].0 <= max_id(fs));
    }
    let t = fs.push(f);
    assert forall|i: int, j: int| 0 <= i < t.len() && 0 <= j < t.len() && i != j implies #[trigger] t[i].0
        != #[trigger] t[j].0 by {
        if i < fs.len() {
            assert(t[i] == fs[i]);
        }
        if j < fs.len() {
            assert(t[j] == fs[j]);
        }
    }
}

/// Once the file numbered `id` is forgotten (removed at its position, as
/// `forget_file` does), no file has that number.
pub proof fn law_forgotten_file_gone(fs: Seq<(i32, Seq<char>, Seq<char>, u64)>, i: int, id: i32)
    requires
        distinct_ids(fs),
        0 <= i < fs.len(),
        fs[i].0 == id,
    ensures
        forall|j: int| 0 <= j < fs.remove(i).len() ==> #[trigger] fs.remove(i)[j].0 != id,
{
    assert forall|j: int| 0 <= j < fs.remove(i).len() implies #[trigger] fs.remove(i)[j].0 != id by {
        let j2 = if j < i { j } else { j + 1 };
        assert(fs.remove(i)[j] == fs[j2]);
        assert(fs[j2].0 != fs[i].0);
    }
}

/// The files read from a directory: numbered from 0 in the order of the
/// entries, named by their UTF-8 name (empty when it is not) without
/// surrounding double quotes.
pub open spec fn spec_list_files(es: Seq<DirEntryInfo>) -> Seq<(i32, Seq<char>, Seq<char>, u64)> {
    Seq::new(
        es.len(),
        |i: int|
            (
                i as i32,
                trim_char(
                    match es[i].name {
                        Some(n) => n@,
                        None => Seq::empty(),
                    },
                    '"',
                ),
                es[i].path@,
                es[i].size,
            ),
    )
}

/// The MIME types (or their prefixes) a file may have.
pub open spec fn allowed_mime(m: Seq<char>) -> bool {
    ||| has_prefix(m, "text/"@)
    ||| has_prefix(m, "image/"@)
    ||| has_prefix(m, "application/pdf"@)
    ||| has_prefix(m, "application/json"@)
    ||| has_prefix(m, "application/msword"@)
    ||| has_prefix(m, "application/vnd.openxmlformats-officedocument"@)
    ||| has_prefix(m, "audio/"@)
    ||| has_prefix(m, "video/"@)
}

/// The MIME types an upload may have are those that begin with `text/`,
/// `image/`, `application/pdf`, `application/json`, `application/msword`,
/// `application/vnd.openxmlformats-officedocument`, `audio/` or `video/`,
/// whatever follows; every other type is refused.
pub proof fn law_allowed_upload_types(m: Seq<char>)
    ensures
        forall|rest: Seq<char>| #[trigger] allowed_mime("text/"@ + rest),
        forall|rest: Seq<char>| #[trigger] allowed_mime("image/"@ + rest),
        forall|rest: Seq<char>| #[trigger] allowed_mime("application/pdf"@ + rest),
        forall|rest: Seq<char>| #[trigger] allowed_mime("application/json"@ + rest),
        forall|rest: Seq<char>| #[trigger] allowed_mime("application/msword"@ + rest),
        forall|rest: Seq<char>| #[trigger] allowed_mime("application/vnd.openxmlformats-officedocument"@ + rest),
        forall|rest: Seq<char>| #[trigger] allowed_mime("audio/"@ + rest),
        forall|rest: Seq<char>| #[trigger] allowed_mime("video/"@ + rest),
        allowed_mime(m) <==> (has_prefix(m, "text/"@) || has_prefix(m, "image/"@) || has_prefix(m, "application/pdf"@) || has_prefix(m, "application/json"@) || has_prefix(m, "application/msword"@) || has_prefix(m, "application/vnd.openxmlformats-officedocument"@) || has_prefix(m, "audio/"@) || has_prefix(m, "video/"@)),
{
    assert forall|rest: Seq<char>| #[trigger] allowed_mime("text/"@ + rest) by {
        assert(("text/"@ + rest).take("text/"@.len() as int) =~= "text/"@);
    }
    assert forall|rest: Seq<char>| #[trigger] allowed_mime("image/"@ + rest) by {
        assert(("image/"@ + rest).take("image/"@.len() as int) =~= "image/"@);
    }
    assert forall|rest: Seq<char>| #[trigger] allowed_mime("application/pdf"@ + rest) by {
        assert(("application/pdf"@ + rest).take("application/pdf"@.len() as int) =~= "application/pdf"@);
    }
    assert forall|rest: Seq<char>| #[trigger] allowed_mime("application/json"@ + rest) by {
        assert(("application/json"@ + rest).take("application/json"@.len() as int) =~= "application/json"@);
    }
    assert forall|rest: Seq<char>| #[trigger] allowed_mime("application/msword"@ + rest) by {
        assert(("application/msword"@ + rest).take("application/msword"@.len() as int) =~= "application/msword"@);
    }
    assert forall|rest: Seq<char>| #[trigger] allowed_mime("application/vnd.openxmlformats-officedocument"@ + rest) by {
        assert(("application/vnd.openxmlformats-officedocument"@ + rest).take("application/vnd.openxmlformats-officedocument"@.len() as int) =~= "application/vnd.openxmlformats-officedocument"@);
    }
    assert forall|rest: Seq<char>| #[trigger] allowed_mime("audio/"@ + rest) by {
        assert(("audio/"@ + rest).take("audio/"@.len() as int) =~= "audio/"@);
    }
    assert forall|rest: Seq<char>| #[trigger] allowed_mime("video/"@ + rest) by {
        assert(("video/"@ + rest).take("video/"@.len() as int) =~= "video/"@);
    }
}

/// The file name tried at attempt `counter`: `stem.ext`, then
/// `stem_counter.ext`, with stem `file` and an empty extension when the
/// name has none.
pub open spec fn spec_candidate_name(name: Seq<char>, counter: u64) -> Seq<char> {
    let ext = match path_extension(name) {
        Some(e) => e,
        None => Seq::empty(),
    };
    let stem = match path_file_stem(name) {
        Some(s) => s,
        None => "file"@,
    };
    if counter == 0 {
        stem + "."@ + ext
    } else {
        stem + "_"@ + decimal(counter as nat) + "."@ + ext
    }
}

/// Reads the files of a directory.
pub fn list_files(entries: &Vec<DirEntryInfo>) -> (r: Vec<File>)
    requires
        entries@.len() <= i32::MAX,
    ensures
        file_views(r@) == spec_list_files(entries@),
        distinct_ids(file_views(r@)),
{
    let mut files: Vec<File> = Vec::new();
    let mut i: usize = 0;
    while i < entries.len()
        invariant
            i <= entries@.len(),
            entries@.len() <= i32::MAX,
            file_views(files@) == spec_list_files(entries@).take(i as int),
        decreases entries@.len() - i,
    {
        let e = &entries[i];
        let raw = match &e.name {
            Some(n) => chars_of(n.as_str()),
            None => Vec::new(),
        };
        let name = trim_matching(&raw, '"');
        let ghost before = file_views(files@);
        let f = File { id: i as i32, name: string_of(&name), path: owned(e.path.as_str()), size: e.size };
        proof {
            assert(raw@ =~= match entries@[i as int].name {
                Some(n) => n@,
                None => Seq::<char>::empty(),
            });
            assert(f@ == spec_list_files(entries@)[i as int]);
        }
        files.push(f);
        assert(file_views(files@) =~= before.push(spec_list_files(entries@)[i as int]));
        assert(file_views(files@) =~= spec_list_files(entries@).take(i + 1));
        i = i + 1;
    }
    assert(spec_list_files(entries@).take(i as int) =~= spec_list_files(entries@));
    files
}

impl Uploader {
    /// The files, in the order of the database.
    pub closed spec fn files(&self) -> Seq<(i32, Seq<char>, Seq<char>, u64)> {
        file_views(self.database@)
    }

    /// The upload directory.
    pub closed spec fn dir(&self) -> Seq<char> {
        self.upload_dir@
    }

    /// No two files have the same number.
    pub open spec fn wf(&self) -> bool {
        distinct_ids(self.files())
    }

    /// The uploader of a directory; `entries` is what the directory held
    /// (`None` when it could not be read).
    pub fn new(upload_dir: String, entries: Option<Vec<DirEntryInfo>>) -> (r: Self)
        requires
            entries matches Some(es) ==> es@.len() <= i32::MAX,
        ensures
            r.dir() == upload_dir@,
            r.files() == match entries {
                Some(es) => spec_list_files(es@),
                None => Seq::empty(),
            },
            r.wf(),
    {
        let database = match &entries {
            Some(es) => list_files(es),
            None => Vec::new(),
        };
        let r = Uploader { database, upload_dir };
        assert(r.files() =~= match entries {
            Some(es) => spec_list_files(es@),
            None => Seq::empty(),
        });
        r
    }

    /// The directory the files are stored in.
    pub fn get_upload_dir(&self) -> (r: String)
        ensures
            r@ == self.dir(),
    {
        owned(self.upload_dir.as_str())
    }

    /// The files, in the order of the database.
    pub fn list_files(&self) -> (r: Vec<&File>)
        ensures
            r@.len() == self.files().len(),
            forall|i: int| 0 <= i < r@.len() ==> (#[trigger] r@[i])@ == self.files()[i],
    {
        let mut r: Vec<&File> = Vec::new();
        let mut i: usize = 0;
        while i < self.database.len()
            invariant
                i <= self.database@.len(),
                r@.len() == i,
                forall|j: int| 0 <= j < i ==> (#[trigger] r@[j])@ == self.files()[j],
            decreases self.database@.len() - i,
        {
            r.push(&self.database[i]);
            i = i + 1;
        }
        r
    }

    /// Whether a MIME type is one files may have.
    pub fn is_allowed_mime_type(&self, mime_type: &str) -> (r: bool)
        ensures
            r == allowed_mime(mime_type@),
    {
        let m = chars_of(mime_type);
        crate::text::chars_begin(&m, "text/") || crate::text::chars_begin(&m, "image/")
            || crate::text::chars_begin(&m, "application/pdf") || crate::text::chars_begin(
            &m,
            "application/json",
        ) || crate::text::chars_begin(&m, "application/msword") || crate::text::chars_begin(
            &m,
            "application/vnd.openxmlformats-officedocument",
        ) || crate::text::chars_begin(&m, "audio/") || crate::text::chars_begin(&m, "video/")
    }

    /// Refuses a MIME type files may not have.
    pub fn validate_mime_type(&self, mime_type: &str) -> (r: Result<(), ServerError>)
        ensures
            allowed_mime(mime_type@) ==> r is Ok,
            !allowed_mime(mime_type@) ==> (r matches Err(
                ServerError::UploaderError(UploaderError::UnsupportedFileType(m)),
            ) && m@ == mime_type@),
    {
        if !self.is_allowed_mime_type(mime_type) {
            return Err(ServerError::UploaderError(UploaderError::UnsupportedFileType(owned(mime_type))));
        }
        Ok(())
    }

    /// The number for a new file: one more than the largest.
    fn generate_next_id(&self) -> (r: i32)
        requires
            max_id(self.files()) < i32::MAX,
        ensures
            r == max_id(self.files()) + 1,
    {
        let mut m: i32 = -1;
        let mut i: usize = 0;
        while i < self.database.len()
            invariant
                i <= self.database@.len(),
                m == max_id(self.files().take(i as int)),
            decreases self.database@.len() - i,
        {
            proof {
                let t = self.files().take(i + 1);
                assert(t.drop_last() =~= self.files().take(i as int));
                assert(t.last() == self.database@[i as int]@);
            }
            if self.database[i].id > m {
                m = self.database[i].id;
            }
            i = i + 1;
        }
        assert(self.files().take(i as int) =~= self.files());
        m + 1
    }

    /// The name stored for an uploaded name: without surrounding double
    /// quotes.
    pub fn clean_name(name: &str) -> (r: String)
        ensures
            r@ == trim_char(name@, '"'),
    {
        let c = chars_of(name);
        string_of(&trim_matching(&c, '"'))
    }

    /// The path tried at attempt `counter` to store a file of the given
    /// name; the first attempt whose path does not exist is used.
    pub fn candidate_path(&self, original_name: &str, counter: u64) -> (r: String)
        ensures
            r@ == joined_path(self.dir(), spec_candidate_name(original_name@, counter)),
    {
        let ext = match extension_of(original_name) {
            Some(e) => e,
            None => owned(""),
        };
        let stem = match file_stem_of(original_name) {
            Some(s) => s,
            None => owned("file"),
        };
        let mut v = chars_of(stem.as_str());
        if counter != 0 {
            push_str(&mut v, "_");
            let d = decimal_chars(counter);
            push_all(&mut v, &d);
        }
        push_str(&mut v, ".");
        push_str(&mut v, ext.as_str());
        proof {
            reveal_strlit("");
        }
        assert(v@ =~= spec_candidate_name(original_name@, counter));
        join_path(self.upload_dir.as_str(), string_of(&v).as_str())
    }

    /// Records a file just stored at `path`: it gets the next number and
    /// the cleaned name, and goes last.
    pub fn record_file(&mut self, name: &str, path: String, size: u64) -> (r: File)
        requires
            old(self).wf(),
            max_id(old(self).files()) < i32::MAX,
        ensures
            final(self).wf(),
            r@ == ((max_id(old(self).files()) + 1) as i32, trim_char(name@, '"'), path@, size),
            final(self).files() == old(self).files().push(r@),
            final(self).dir() == old(self).dir(),
    {
        let id = self.generate_next_id();
        let f = File { id, name: Uploader::clean_name(name), path, size };
        proof {
            lemma_max_id(self.files());
        }
        self.database.push(f.clone());
        assert(self.files() =~= old(self).files().push(f@));
        f
    }

    /// The file with number `file_id`.
    pub fn get_file(&self, file_id: i32) -> (r: Result<&File, ServerError>)
        ensures
            (exists|i: int| 0 <= i < self.files().len() && #[trigger] self.files()[i].0 == file_id)
                ==> (r matches Ok(f) && f.id == file_id && exists|i: int|
                0 <= i < self.files().len() && #[trigger] self.files()[i] == f@),
            !(exists|i: int| 0 <= i < self.files().len() && #[trigger] self.files()[i].0 == file_id)
                ==> (r matches Err(ServerError::UploaderError(UploaderError::FileNotFound(id)))
                && id == file_id),
    {
        let mut i: usize = 0;
        while i < self.database.len()
            invariant
                i <= self.database@.len(),
                forall|j: int| 0 <= j < i ==> #[trigger] self.files()[j].0 != file_id,
            decreases self.database@.len() - i,
        {
            assert(self.files()[i as int] == self.database@[i as int]@);
            if self.database[i].id == file_id {
                assert(self.files()[i as int].0 == file_id);
                return Ok(&self.database[i]);
            }
            i = i + 1;
        }
        Err(ServerError::UploaderError(UploaderError::FileNotFound(file_id)))
    }

    /// Forgets the file with number `file_id` (after it was removed from
    /// the disk) and returns it.
    pub fn forget_file(&mut self, file_id: i32) -> (r: Result<File, ServerError>)
        requires
            old(self).wf(),
        ensures
            final(self).wf(),
            final(self).dir() == old(self).dir(),
            match r {
                Ok(f) => exists|i: int|
                    0 <= i < old(self).files().len() && old(self).files()[i] == f@ && f.id == file_id
                        && final(self).files() == old(self).files().remove(i),
                Err(e) => (e matches ServerError::UploaderError(UploaderError::FileNotFound(id))
                    && id == file_id) && final(self).files() == old(self).files() && forall|i: int|
                    0 <= i < old(self).files().len() ==> #[trigger] old(self).files()[i].0
                        != file_id,
            },
    {
        let mut i: usize = 0;
        while i < self.database.len()
            invariant
                i <= self.database@.len(),
                self.database == old(self).database,
                self.upload_dir == old(self).upload_dir,
                self.wf(),
                forall|j: int| 0 <= j < i ==> #[trigger] self.files()[j].0 != file_id,
            decreases self.database@.len() - i,
        {
            assert(self.files()[i as int] == self.database@[i as int]@);
            if self.database[i].id == file_id {
                let ghost before = self.files();
                assert(distinct_ids(before));
                assert(before[i as int] == self.database@[i as int]@);
                let f = self.database.remove(i);
                proof {
                    assert(self.files() =~= before.remove(i as int));
                    assert forall|a: int, b: int|
                        0 <= a < self.files().len() && 0 <= b < self.files().len() && a != b
                            implies #[trigger] self.files()[a].0 != #[trigger] self.files()[b].0 by {
                        let a2 = if a < i { a } else { a + 1 };
                        let b2 = if b < i { b } else { b + 1 };
                        assert(self.files()[a] == before[a2]);
                        assert(self.files()[b] == before[b2]);
                        assert(before[a2].0 != before[b2].0);
                    }
                    assert(old(self).files()[i as int] == f@);
                }
                return Ok(f);
            }
            i = i + 1;
        }
        Err(ServerError::UploaderError(UploaderError::FileNotFound(file_id)))
    }

    /// Brings the database in step with the disk: the files whose path no
    /// longer exists (`exists` tells, file by file) are dropped, then each
    /// entry of the directory (`entries`, `None` when the directory does
    /// not exist) whose path no file has is added with the next number.
    pub fn sync_database(&mut self, exists: &Vec<bool>, entries: Option<&Vec<DirEntryInfo>>)
        requires
            old(self).wf(),
            exists@.len() == old(self).files().len(),
            max_id(old(self).files()) < i32::MAX,
            entries matches Some(es) ==> es@.len() < i32::MAX - max_id(old(self).files()),
        ensures
            final(self).wf(),
            final(self).dir() == old(self).dir(),
            final(self).files() == synced(
                kept_files(old(self).files(), exists@),
                match entries {
                    Some(es) => es@,
                    None => Seq::empty(),
                },
            ),
    {
        let ghost kept = kept_files(self.files(), exists@);
        self.retain_existing(exists);
        if let Some(es) = entries {
            let mut i: usize = 0;
            while i < es.len()
                invariant
                    i <= es@.len(),
                    self.wf(),
                    self.dir() == old(self).dir(),
                    max_id(kept) <= max_id(old(self).files()),
                    es@.len() < i32::MAX - max_id(old(self).files()),
                    self.files() == synced(kept, es@.take(i as int)),
                    max_id(self.files()) <= max_id(kept) + i,
                decreases es@.len() - i,
            {
                let ghost before = self.files();
                proof {
                    let t = es@.take(i + 1);
                    assert(t.drop_last() =~= es@.take(i as int));
                    assert(t.last() == es@[i as int]);
                }
                if !self.has_path(es[i].path.as_str()) {
                    let id = self.generate_next_id();
                    let f = File {
                        id,
                        name: owned(es[i].lossy_name.as_str()),
                        path: owned(es[i].path.as_str()),
                        size: es[i].size,
                    };
                    proof {
                        lemma_max_id(self.files());
                    }
                    let ghost fv = f@;
                    self.database.push(f);
                    assert(self.files() =~= before.push(fv));
                    proof {
                        lemma_max_id(self.files());
                        let m = max_id(self.files());
                        if m != -1 && m != fv.0 {
                            let k = choose|k: int| 0 <= k < self.files().len() && #[trigger] self.files()[k].0 == m;
                            assert(self.files()[k] == before[k]);
                        }
                    }
                }
                i = i + 1;
            }
            assert(es@.take(i as int) =~= es@);
        } else {
            assert(self.files() == synced(kept, Seq::empty()));
        }
    }

    /// Whether a file has the path `p` (compared as paths).
    fn has_path(&self, p: &str) -> (r: bool)
        ensures
            r == exists|i: int| 0 <= i < self.files().len() && same_path(#[trigger] self.files()[i].2, p@),
    {
        let mut i: usize = 0;
        while i < self.database.len()
            invariant
                i <= self.database@.len(),
                forall|j: int| 0 <= j < i ==> !same_path(#[trigger] self.files()[j].2, p@),
            decreases self.database@.len() - i,
        {
            assert(self.files()[i as int] == self.database@[i as int]@);
            if paths_equal(self.database[i].path.as_str(), p) {
                assert(same_path(self.files()[i as int].2, p@));
                return true;
            }
            i = i + 1;
        }
        false
    }

    /// Drops the files whose path no longer exists.
    fn retain_existing(&mut self, exists: &Vec<bool>)
        requires
            old(self).wf(),
            exists@.len() == old(self).files().len(),
        ensures
            final(self).wf(),
            final(self).dir() == old(self).dir(),
            final(self).files() == kept_files(old(self).files(), exists@),
            max_id(final(self).files()) <= max_id(old(self).files()),
    {
        let ghost all = self.files();
        let mut rest: Vec<File> = Vec::new();
        std::mem::swap(&mut rest, &mut self.database);
        let ghost rest0 = rest@;
        assert(file_views(rest0) == all);
        let mut i: usize = 0;
        let n = rest.len();
        while i < n
            invariant
                n == rest0.len(),
                i <= n,
                exists@.len() == n,
                file_views(rest0) == all,
                distinct_ids(all),
                self.upload_dir == old(self).upload_dir,
                rest@ == rest0.skip(i as int),
                self.files() == kept_files(all.take(i as int), exists@),
            decreases n - i,
        {
            let f = rest.remove(0);
            proof {
                assert(f == rest0[i as int]);
                assert(rest@ =~= rest0.skip(i + 1));
                let t = all.take(i + 1);
                assert(t.drop_last() =~= all.take(i as int));
                assert(t.last() == f@);
            }
            let ghost before = self.files();
            if exists[i] {
                let ghost fv = f@;
                self.database.push(f);
                assert(self.files() =~= before.push(fv));
            }
            i = i + 1;
        }
        assert(all.take(i as int) =~= all);
        proof {
            lemma_kept_sub(all, exists@);
        }
    }
}

/// The files whose flag is set, in order.
pub open spec fn kept_files(fs: Seq<(i32, Seq<char>, Seq<char>, u64)>, keep: Seq<bool>) -> Seq<(i32, Seq<char>, Seq<char>, u64)>
    decreases fs.len(),
{
    if fs.len() == 0 {
        Seq::empty()
    } else {
        let rest = kept_files(fs.drop_last(), keep);
        if keep[fs.len() - 1] {
            rest.push(fs.last())
        } else {
            rest
        }
    }
}

/// The files after the directory entries are added: each entry whose
/// path no file has joins with the next number and its lossy name.
pub open spec fn synced(fs: Seq<(i32, Seq<char>, Seq<char>, u64)>, es: Seq<DirEntryInfo>) -> Seq<(i32, Seq<char>, Seq<char>, u64)>
    decreases es.len(),
{
    if es.len() == 0 {
        fs
    } else {
        let pre = synced(fs, es.drop_last());
        let e = es.last();
        if exists|i: int| 0 <= i < pre.len() && same_path(#[trigger] pre[i].2, e.path@) {
            pre
        } else {
            pre.push(((max_id(pre) + 1) as i32, e.lossy_name@, e.path@, e.size))
        }
    }
}

/// Keeping some files keeps their numbers distinct and the largest no
/// larger.
pub proof fn lemma_kept_sub(fs: Seq<(i32, Seq<char>, Seq<char>, u64)>, keep: Seq<bool>)
    requires
        distinct_ids(fs),
        keep.len() == fs.len(),
    ensures
        distinct_ids(kept_files(fs, keep)),
        max_id(kept_files(fs, keep)) <= max_id(fs),
        forall|k: int| 0 <= k < kept_files(fs, keep).len() ==> exists|j: int| 0 <= j < fs.len() && #[trigger] kept_files(fs, keep)[k] == fs[j],
    decreases fs.len(),
{
    if fs.len() > 0 {
        let pre = fs.drop_last();
        assert(distinct_ids(pre)) by {
            assert forall|a: int, b: int| 0 <= a < pre.len() && 0 <= b < pre.len() && a != b implies #[trigger] pre[a].0 != #[trigger] pre[b].0 by {
                assert(pre[a] == fs[a]);
                assert(pre[b] == fs[b]);
            }
        }
        lemma_kept_sub(pre, keep.take(pre.len() as int));
        assert(kept_files(pre, keep.take(pre.len() as int)) == kept_files(pre, keep)) by {
            lemma_kept_prefix(pre, keep);
        }
        let rest = kept_files(pre, keep);
        lemma_max_id(fs);
        lemma_max_id(pre);
        lemma_max_id(rest);
        if keep[fs.len() - 1] {
            let r = rest.push(fs.last());
            assert forall|k: int| 0 <= k < r.len() implies exists|j: int| 0 <= j < fs.len() && #[trigger] r[k] == fs[j] by {
                if k < rest.len() {
                    let j = choose|j: int| 0 <= j < pre.len() && #[trigger] rest[k] == pre[j];
                    assert(fs[j] == pre[j]);
                } else {
                    assert(r[k] == fs[fs.len() - 1]);
                }
            }
            assert forall|a: int, b: int| 0 <= a < r.len() && 0 <= b < r.len() && a != b implies #[trigger] r[a].0 != #[trigger] r[b].0 by {
                if a < rest.len() && b < rest.len() {
                    assert(r[a] == rest[a]);
                    assert(r[b] == rest[b]);
                } else if a < rest.len() {
                    let j = choose|j: int| 0 <= j < pre.len() && #[trigger] rest[a] == pre[j];
                    assert(fs[j] == pre[j]);
                    assert(r[b] == fs[fs.len() - 1]);
                } else if b < rest.len() {
                    let j = choose|j: int| 0 <= j < pre.len() && #[trigger] rest[b] == pre[j];
                    assert(fs[j] == pre[j]);
                    assert(r[a] == fs[fs.len() - 1]);
                }
            }
            lemma_max_id(r);
            assert(r.drop_last() =~= rest);
        } else {
            assert forall|k: int| 0 <= k < rest.len() implies exists|j: int| 0 <= j < fs.len() && #[trigger] rest[k] == fs[j] by {
                let j = choose|j: int| 0 <= j < pre.len() && #[trigger] rest[k] == pre[j];
                assert(fs[j] == pre[j]);
            }
        }
    }
}

/// Only the flags of the files count.
proof fn lemma_kept_prefix(fs: Seq<(i32, Seq<char>, Seq<char>, u64)>, keep: Seq<bool>)
    requires
        keep.len() >= fs.len(),
    ensures
        kept_files(fs, keep.take(fs.len() as int)) == kept_files(fs, keep),
    decreases fs.len(),
{
    if fs.len() > 0 {
        lemma_kept_prefix(fs.drop_last(), keep);
        lemma_kept_prefix(fs.drop_last(), keep.take(fs.len() as int));
        assert(keep.take(fs.len() as int).take(fs.len() - 1) =~= keep.take(fs.len() - 1));
    }
}

} // verus!
