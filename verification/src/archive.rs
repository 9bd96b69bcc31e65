//! The web clients' representation of an Autonomi archive (a website or
//! directory tree): a list of directory and file entries built from the
//! archive's files, and the files that such a list stores back.

use vstd::prelude::*;
use vstd::string::*;
use crate::keys::{
    hex_decode, hex_decode_spec, hex_encode_spec, hex_lower_round_trip, is_lower_hex, xor_name_from_hex,
    xor_name_from_hex_spec,
};
use crate::objects::DwebType;
use crate::text::{chars_of, chars_eq, push_str, slice_from, slice_range, string_of};

verus! {

/// The kind of an archive entry.
#[derive(Debug, Clone, Copy, PartialEq, Eq)]
pub enum DwebArchiveEntryType {
    File,
    Directory,
}

/// A directory or file of an archive, as web clients see it.
#[derive(Debug, Clone)]
pub struct DwebArchiveEntry {
    pub dweb_type: DwebArchiveEntryType,
    /// The path from the root of the archive; starts with `/`, and a
    /// directory's ends with `/`.
    pub full_path: String,
    /// Hexadecimal address of a public file's data.
    pub data_address: String,
    /// Hexadecimal data map of a private file.
    pub datamap: String,
    pub created: String,
    pub modified: String,
    pub size: u64,
    /// Additional metadata (JSON).
    pub extra: String,
}

/// The mathematical view of an archive entry.
pub struct ArchiveEntryView {
    pub is_file: bool,
    pub full_path: Seq<char>,
    pub data_address: Seq<char>,
    pub datamap: Seq<char>,
    pub created: Seq<char>,
    pub modified: Seq<char>,
    pub size: u64,
    pub extra: Seq<char>,
}

impl View for DwebArchiveEntry {
    type V = ArchiveEntryView;

    open spec fn view(&self) -> ArchiveEntryView {
        ArchiveEntryView {
            is_file: self.dweb_type == DwebArchiveEntryType::File,
            full_path: self.full_path@,
            data_address: self.data_address@,
            datamap: self.datamap@,
            created: self.created@,
            modified: self.modified@,
            size: self.size,
            extra: self.extra@,
        }
    }
}

/// A file of an archive, as read from it: its path from the root of the
/// website (with `/` separators), the hexadecimal address of its data
/// and of its data map where it has them, its dates (as JSON date text), its
/// size and its extra metadata.
#[derive(Debug, Clone)]
pub struct ArchiveFile {
    pub web_path: String,
    pub data_address: Option<String>,
    pub datamap: Option<String>,
    pub created: String,
    pub modified: String,
    pub size: u64,
    pub extra: Option<String>,
}

/// Metadata about the History from which an archive was obtained.
#[derive(Debug, Clone)]
pub struct DwebHistoryReference {
    pub history_address: String,
    /// The version obtained (0: the most recent).
    pub version: u32,
    /// The number of versions when the History was read.
    pub history_size: u32,
}

impl DwebHistoryReference {
    /// The metadata of a History with `num_entries` entries from which the
    /// archive of `version` (0, the most recent, when none) was obtained.
    pub fn from_history(history_address: String, version: Option<u32>, num_entries: u32) -> (r:
        DwebHistoryReference)
        requires
            num_entries >= 1,
        ensures
            r.history_address@ == history_address@,
            r.version == (match version {
                Some(v) => v,
                None => 0,
            }),
            r.history_size == num_entries - 1,
    {
        let version = match version {
            Some(v) => v,
            None => 0,
        };
        DwebHistoryReference { history_address, version, history_size: num_entries - 1 }
    }
}

/// An archive as web clients see it.
#[derive(Debug, Clone)]
pub struct DwebArchive {
    pub entries: Vec<DwebArchiveEntry>,
    pub history_metadata: Option<DwebHistoryReference>,
}

/// The text of an optional string, empty when absent.
pub open spec fn or_empty(s: Option<String>) -> Seq<char> {
    match s {
        Some(t) => t@,
        None => Seq::<char>::empty(),
    }
}

/// The entry of a directory.
pub open spec fn directory_view(path: Seq<char>) -> ArchiveEntryView {
    ArchiveEntryView {
        is_file: false,
        full_path: path,
        data_address: Seq::<char>::empty(),
        datamap: Seq::<char>::empty(),
        created: Seq::<char>::empty(),
        modified: Seq::<char>::empty(),
        size: 0,
        extra: Seq::<char>::empty(),
    }
}

/// The entry of a file.
pub open spec fn file_view(f: ArchiveFile) -> ArchiveEntryView {
    ArchiveEntryView {
        is_file: true,
        full_path: f.web_path@,
        data_address: or_empty(f.data_address),
        datamap: or_empty(f.datamap),
        created: f.created@,
        modified: f.modified@,
        size: f.size,
        extra: or_empty(f.extra),
    }
}

/// The position of the last `/` in a path (`str::rfind`).
pub open spec fn last_slash(s: Seq<char>) -> Option<int>
    decreases s.len(),
{
    if s.len() == 0 {
        None
    } else if s.last() == '/' {
        Some(s.len() - 1)
    } else {
        last_slash(s.drop_last())
    }
}

proof fn lemma_last_slash(s: Seq<char>)
    ensures
        last_slash(s) matches Some(k) ==> 0 <= k < s.len() && s[k] == '/',
    decreases s.len(),
{
    if s.len() > 0 && s.last() != '/' {
        lemma_last_slash(s.drop_last());
    }
}

/// The entries hold an entry of the kind with the path.
pub open spec fn has_entry(s: Seq<ArchiveEntryView>, is_file: bool, path: Seq<char>) -> bool {
    exists|i: int| 0 <= i < s.len() && (#[trigger] s[i]).is_file == is_file && s[i].full_path == path
}

/// The entries after adding a file to them: the directory that holds it
/// (its path up to and including the last `/`), unless already there, and
/// then the file, unless already there. A path with no `/` adds nothing.
pub open spec fn add_file_spec(s: Seq<ArchiveEntryView>, f: ArchiveFile) -> Seq<ArchiveEntryView> {
    match last_slash(f.web_path@) {
        Some(k) => {
            let dir = f.web_path@.take(k + 1);
            let s1 = if has_entry(s, false, dir) {
                s
            } else {
                s.push(directory_view(dir))
            };
            if has_entry(s1, true, f.web_path@) {
                s1
            } else {
                s1.push(file_view(f))
            }
        },
        None => s,
    }
}

/// The entries built from a list of files, in order.
pub open spec fn archive_entries_spec(files: Seq<ArchiveFile>) -> Seq<ArchiveEntryView>
    decreases files.len(),
{
    if files.len() == 0 {
        Seq::<ArchiveEntryView>::empty()
    } else {
        add_file_spec(archive_entries_spec(files.drop_last()), files.last())
    }
}

/// No two entries have the same kind and path.
pub open spec fn distinct_entries(s: Seq<ArchiveEntryView>) -> bool {
    forall|i: int, j: int|
        0 <= i < j < s.len() ==> !((#[trigger] s[i]).is_file == (#[trigger] s[j]).is_file
            && s[i].full_path == s[j].full_path)
}

/// The directory that holds a file: its path up to and including the last `/`.
pub open spec fn directory_of(p: Seq<char>) -> Seq<char> {
    p.take(last_slash(p)->0 + 1)
}

/// Every file entry's path holds a `/`, and the entry of the directory
/// that holds it comes before it.
pub open spec fn directories_first(s: Seq<ArchiveEntryView>) -> bool {
    forall|i: int|
        0 <= i < s.len() && (#[trigger] s[i]).is_file ==> last_slash(s[i].full_path) is Some
            && exists|j: int|
            0 <= j < i && !(#[trigger] s[j]).is_file && s[j].full_path == directory_of(
                s[i].full_path,
            )
}

proof fn lemma_add_file_keeps(s: Seq<ArchiveEntryView>, f: ArchiveFile)
    requires
        distinct_entries(s),
        directories_first(s),
    ensures
        distinct_entries(add_file_spec(s, f)),
        directories_first(add_file_spec(s, f)),
        add_file_spec(s, f).len() >= s.len(),
        forall|i: int| 0 <= i < s.len() ==> #[trigger] add_file_spec(s, f)[i] == s[i],
        last_slash(f.web_path@) is Some ==> has_entry(add_file_spec(s, f), true, f.web_path@),
{
    let t = add_file_spec(s, f);
    match last_slash(f.web_path@) {
        Some(k) => {
            let dir = f.web_path@.take(k + 1);
            let s1 = if has_entry(s, false, dir) {
                s
            } else {
                s.push(directory_view(dir))
            };
            assert(distinct_entries(s1)) by {
                if !has_entry(s, false, dir) {
                    assert forall|i: int, j: int| 0 <= i < j < s1.len() implies !((
                    #[trigger] s1[i]).is_file == (#[trigger] s1[j]).is_file && s1[i].full_path
                        == s1[j].full_path) by {
                        if j == s.len() {
                            assert(s1[i] == s[i]);
                        } else {
                            assert(s1[i] == s[i] && s1[j] == s[j]);
                        }
                    }
                }
            }
            assert(has_entry(s1, false, dir)) by {
                if !has_entry(s, false, dir) {
                    assert(s1[s.len() as int] == directory_view(dir));
                }
            }
            assert(forall|i: int| 0 <= i < s.len() ==> #[trigger] s1[i] == s[i]);
            assert(directories_first(s1)) by {
                assert forall|i: int| 0 <= i < s1.len() && (#[trigger] s1[i]).is_file implies last_slash(
                    s1[i].full_path,
                ) is Some && exists|j: int|
                    0 <= j < i && !(#[trigger] s1[j]).is_file && s1[j].full_path == directory_of(
                        s1[i].full_path,
                    ) by {
                    assert(i < s.len());
                    assert(s1[i] == s[i]);
                    let j = choose|j: int|
                        0 <= j < i && !(#[trigger] s[j]).is_file && s[j].full_path == directory_of(
                            s[i].full_path,
                        );
                    assert(s1[j] == s[j]);
                }
            }
            if !has_entry(s1, true, f.web_path@) {
                assert(t == s1.push(file_view(f)));
                assert forall|i: int, j: int| 0 <= i < j < t.len() implies !((
                #[trigger] t[i]).is_file == (#[trigger] t[j]).is_file && t[i].full_path
                    == t[j].full_path) by {
                    if j == s1.len() {
                        assert(t[i] == s1[i]);
                    } else {
                        assert(t[i] == s1[i] && t[j] == s1[j]);
                    }
                }
                let jd = choose|j: int| 0 <= j < s1.len() && (#[trigger] s1[j]).is_file == false
                    && s1[j].full_path == dir;
                assert forall|i: int| 0 <= i < t.len() && (#[trigger] t[i]).is_file implies last_slash(
                    t[i].full_path,
                ) is Some && exists|j: int|
                    0 <= j < i && !(#[trigger] t[j]).is_file && t[j].full_path == directory_of(
                        t[i].full_path,
                    ) by {
                    if i == s1.len() {
                        assert(t[i] == file_view(f));
                        assert(t[jd] == s1[jd]);
                        assert(directory_of(t[i].full_path) == dir);
                    } else {
                        assert(t[i] == s1[i]);
                        let j = choose|j: int|
                            0 <= j < i && !(#[trigger] s1[j]).is_file && s1[j].full_path
                                == directory_of(s1[i].full_path);
                        assert(t[j] == s1[j]);
                    }
                }
                assert(t[s1.len() as int] == file_view(f));
            }
        },
        None => {},
    }
}

/// The entries built from any list of files hold each directory and each
/// file once; each file's directory comes before it; and every file whose
/// path holds a `/` has its entry.
pub proof fn archive_entries_well_formed(files: Seq<ArchiveFile>)
    ensures
        distinct_entries(archive_entries_spec(files)),
        directories_first(archive_entries_spec(files)),
        forall|m: int|
            0 <= m < files.len() && last_slash((#[trigger] files[m]).web_path@) is Some ==> has_entry(
                archive_entries_spec(files),
                true,
                files[m].web_path@,
            ),
    decreases files.len(),
{
    if files.len() > 0 {
        let prev = files.drop_last();
        archive_entries_well_formed(prev);
        let s = archive_entries_spec(prev);
        lemma_add_file_keeps(s, files.last());
        let t = archive_entries_spec(files);
        assert forall|m: int|
            0 <= m < files.len() && last_slash((#[trigger] files[m]).web_path@) is Some implies has_entry(
            t,
            true,
            files[m].web_path@,
        ) by {
            if m < files.len() - 1 {
                assert(files[m] == prev[m]);
                let i = choose|i: int|
                    0 <= i < s.len() && (#[trigger] s[i]).is_file == true && s[i].full_path
                        == prev[m].web_path@;
                assert(t[i] == s[i]);
            }
        }
    }
}

/// A file to store in an archive: its path, the bytes that locate its
/// content (the data address of a public file, the data map of a private
/// one), its dates as JSON date text, its size and extra metadata.
#[derive(Debug, Clone)]
pub struct ArchiveRecord {
    pub path: String,
    pub content: Vec<u8>,
    pub created: String,
    pub modified: String,
    pub size: u64,
    pub extra: Option<String>,
}

/// The mathematical view of an archive record.
pub struct ArchiveRecordView {
    pub path: Seq<char>,
    pub content: Seq<u8>,
    pub created: Seq<char>,
    pub modified: Seq<char>,
    pub size: u64,
    pub extra: Option<Seq<char>>,
}

impl View for ArchiveRecord {
    type V = ArchiveRecordView;

    open spec fn view(&self) -> ArchiveRecordView {
        ArchiveRecordView {
            path: self.path@,
            content: self.content@,
            created: self.created@,
            modified: self.modified@,
            size: self.size,
            extra: match self.extra {
                Some(e) => Some(e@),
                None => None,
            },
        }
    }
}

/// The record of a file entry with the given content: extra metadata only
/// when not empty.
pub open spec fn record_of(e: ArchiveEntryView, content: Seq<u8>) -> ArchiveRecordView {
    ArchiveRecordView {
        path: e.full_path,
        content,
        created: e.created,
        modified: e.modified,
        size: e.size,
        extra: if e.extra.len() == 0 {
            None
        } else {
            Some(e.extra)
        },
    }
}

/// Why an archive could not be stored.
#[derive(Debug, Clone)]
pub enum ArchiveConversionError {
    /// A file entry's data address is not a valid address.
    InvalidDataAddress { data_address: String },
    /// A file entry's data map is not hexadecimal (with the decoder's reason).
    InvalidDatamap { datamap: String, reason: String },
}

impl ArchiveConversionError {
    /// The text of the error.
    pub fn message(&self) -> (r: String)
        ensures
            r@ == (match self {
                ArchiveConversionError::InvalidDataAddress { data_address } =>
                    "entry has invalid data address: "@ + data_address@,
                ArchiveConversionError::InvalidDatamap { datamap, reason } =>
                    "entry has invalid datamap: "@ + datamap@ + ", "@ + reason@,
            }),
    {
        let mut v: Vec<char> = Vec::new();
        match self {
            ArchiveConversionError::InvalidDataAddress { data_address } => {
                push_str(&mut v, "entry has invalid data address: ");
                push_str(&mut v, data_address.as_str());
            },
            ArchiveConversionError::InvalidDatamap { datamap, reason } => {
                push_str(&mut v, "entry has invalid datamap: ");
                push_str(&mut v, datamap.as_str());
                push_str(&mut v, ", ");
                push_str(&mut v, reason.as_str());
            },
        }
        string_of(v.as_slice())
    }
}

/// The records of the file entries of a public archive, in order, each with
/// its data address; or, at the first file entry whose data address is not
/// a valid address, that address. Directory entries are skipped.
pub open spec fn public_records_spec(s: Seq<ArchiveEntryView>) -> Result<Seq<ArchiveRecordView>, Seq<char>>
    decreases s.len(),
{
    if s.len() == 0 {
        Ok(Seq::<ArchiveRecordView>::empty())
    } else {
        match public_records_spec(s.drop_last()) {
            Err(a) => Err(a),
            Ok(rs) => {
                let e = s.last();
                if !e.is_file {
                    Ok(rs)
                } else {
                    match xor_name_from_hex_spec(e.data_address) {
                        Some(a) => Ok(rs.push(record_of(e, a))),
                        None => Err(e.data_address),
                    }
                }
            },
        }
    }
}

/// The records of the file entries of a private archive, in order, each
/// with its data map; or, at the first file entry whose data map is not
/// hexadecimal, that data map. Directory entries are skipped.
pub open spec fn private_records_spec(s: Seq<ArchiveEntryView>) -> Result<Seq<ArchiveRecordView>, Seq<char>>
    decreases s.len(),
{
    if s.len() == 0 {
        Ok(Seq::<ArchiveRecordView>::empty())
    } else {
        match private_records_spec(s.drop_last()) {
            Err(d) => Err(d),
            Ok(rs) => {
                let e = s.last();
                if !e.is_file {
                    Ok(rs)
                } else {
                    match hex_decode_spec(e.datamap) {
                        Some(d) => Ok(rs.push(record_of(e, d))),
                        None => Err(e.datamap),
                    }
                }
            },
        }
    }
}

/// The records of a list of public files, each with the address its data
/// address text denotes.
pub open spec fn public_file_records(files: Seq<ArchiveFile>) -> Seq<ArchiveRecordView> {
    Seq::new(
        files.len(),
        |i: int|
            record_of(
                file_view(files[i]),
                xor_name_from_hex_spec(or_empty(files[i].data_address))->0,
            ),
    )
}

proof fn lemma_file_entries_from_files(files: Seq<ArchiveFile>)
    ensures
        forall|i: int|
            0 <= i < archive_entries_spec(files).len() && (#[trigger] archive_entries_spec(
                files,
            )[i]).is_file ==> exists|m: int|
                0 <= m < files.len() && archive_entries_spec(files)[i] == file_view(
                    #[trigger] files[m],
                ),
    decreases files.len(),
{
    if files.len() > 0 {
        let prev = files.drop_last();
        lemma_file_entries_from_files(prev);
        let s = archive_entries_spec(prev);
        archive_entries_well_formed(prev);
        lemma_add_file_keeps(s, files.last());
        let t = archive_entries_spec(files);
        assert forall|i: int| 0 <= i < t.len() && (#[trigger] t[i]).is_file implies exists|m: int|
            0 <= m < files.len() && t[i] == file_view(#[trigger] files[m]) by {
            if i < s.len() {
                assert(t[i] == s[i]);
                let m = choose|m: int| 0 <= m < prev.len() && s[i] == file_view(#[trigger] prev[m]);
                assert(files[m] == prev[m]);
            } else {
                let f = files.last();
                let k = last_slash(f.web_path@)->0;
                let dir = f.web_path@.take(k + 1);
                let s1 = if has_entry(s, false, dir) { s } else { s.push(directory_view(dir)) };
                if i < s1.len() {
                    assert(t[i] == s1[i]);
                    assert(!s1[i].is_file);
                } else {
                    assert(t[i] == file_view(f));
                    assert(files[files.len() - 1] == f);
                }
            }
        }
    }
}

/// An archive read from a list of public files is stored back as those
/// files: when every file's path holds a `/`, no two files share a path and
/// every data address is valid, the records of the archive are the files,
/// in order, each with its address.
pub proof fn public_archive_round_trip(files: Seq<ArchiveFile>)
    requires
        forall|m: int| 0 <= m < files.len() ==> last_slash((#[trigger] files[m]).web_path@) is Some,
        forall|m: int, n: int|
            0 <= m < n < files.len() ==> (#[trigger] files[m]).web_path@ != (#[trigger] files[n]).web_path@,
        forall|m: int|
            0 <= m < files.len() ==> xor_name_from_hex_spec(or_empty((#[trigger] files[m]).data_address))
                is Some,
    ensures
        public_records_spec(archive_entries_spec(files)) == Ok::<Seq<ArchiveRecordView>, Seq<char>>(
            public_file_records(files),
        ),
    decreases files.len(),
{
    if files.len() == 0 {
        assert(public_file_records(files) =~= Seq::<ArchiveRecordView>::empty());
    } else {
        let prev = files.drop_last();
        let f = files.last();
        assert forall|m: int| 0 <= m < prev.len() implies last_slash((#[trigger] prev[m]).web_path@) is Some by {
            assert(prev[m] == files[m]);
        }
        assert forall|m: int, n: int| 0 <= m < n < prev.len() implies (#[trigger] prev[m]).web_path@
            != (#[trigger] prev[n]).web_path@ by {
            assert(prev[m] == files[m] && prev[n] == files[n]);
        }
        assert forall|m: int| 0 <= m < prev.len() implies xor_name_from_hex_spec(or_empty((#[trigger] prev[m]).data_address))
            is Some by {
            assert(prev[m] == files[m]);
        }
        public_archive_round_trip(prev);
        lemma_file_entries_from_files(prev);
        let s = archive_entries_spec(prev);
        assert(files[files.len() - 1] == f);
        let k = last_slash(f.web_path@)->0;
        let dir = f.web_path@.take(k + 1);
        let s1 = if has_entry(s, false, dir) { s } else { s.push(directory_view(dir)) };
        assert(!has_entry(s1, true, f.web_path@)) by {
            if has_entry(s1, true, f.web_path@) {
                let i = choose|i: int| 0 <= i < s1.len() && (#[trigger] s1[i]).is_file == true
                    && s1[i].full_path == f.web_path@;
                if i < s.len() {
                    assert(s1[i] == s[i]);
                    let m = choose|m: int| 0 <= m < prev.len() && s[i] == file_view(#[trigger] prev[m]);
                    assert(prev[m] == files[m]);
                    assert(files[m].web_path@ != files[files.len() - 1].web_path@);
                } else {
                    assert(!s1[i].is_file);
                }
            }
        }
        let t = archive_entries_spec(files);
        assert(t == s1.push(file_view(f)));
        assert(public_records_spec(s1) == public_records_spec(s)) by {
            if !has_entry(s, false, dir) {
                assert(s1.drop_last() =~= s);
            }
        }
        assert(t.drop_last() =~= s1);
        assert(public_file_records(files) =~= public_file_records(prev).push(
            record_of(file_view(f), xor_name_from_hex_spec(or_empty(f.data_address))->0),
        ));
    }
}

/// The records of a list of private files, each with the bytes its data
/// map text denotes.
pub open spec fn private_file_records(files: Seq<ArchiveFile>) -> Seq<ArchiveRecordView> {
    Seq::new(
        files.len(),
        |i: int| record_of(file_view(files[i]), hex_decode_spec(or_empty(files[i].datamap))->0),
    )
}

/// An archive read from a list of private files is stored back as those
/// files: when every file's path holds a `/`, no two files share a path and
/// every data map is hexadecimal, the records of the archive are the files,
/// in order, each with the bytes of its data map (so there is one record per
/// file).
pub proof fn private_archive_round_trip(files: Seq<ArchiveFile>)
    requires
        forall|m: int| 0 <= m < files.len() ==> last_slash((#[trigger] files[m]).web_path@) is Some,
        forall|m: int, n: int|
            0 <= m < n < files.len() ==> (#[trigger] files[m]).web_path@ != (#[trigger] files[n]).web_path@,
        forall|m: int|
            0 <= m < files.len() ==> hex_decode_spec(or_empty((#[trigger] files[m]).datamap))
                is Some,
    ensures
        private_records_spec(archive_entries_spec(files)) == Ok::<Seq<ArchiveRecordView>, Seq<char>>(
            private_file_records(files),
        ),
    decreases files.len(),
{
    if files.len() == 0 {
        assert(private_file_records(files) =~= Seq::<ArchiveRecordView>::empty());
    } else {
        let prev = files.drop_last();
        let f = files.last();
        assert forall|m: int| 0 <= m < prev.len() implies last_slash((#[trigger] prev[m]).web_path@) is Some by {
            assert(prev[m] == files[m]);
        }
        assert forall|m: int, n: int| 0 <= m < n < prev.len() implies (#[trigger] prev[m]).web_path@
            != (#[trigger] prev[n]).web_path@ by {
            assert(prev[m] == files[m] && prev[n] == files[n]);
        }
        assert forall|m: int| 0 <= m < prev.len() implies hex_decode_spec(or_empty((#[trigger] prev[m]).datamap))
            is Some by {
            assert(prev[m] == files[m]);
        }
        private_archive_round_trip(prev);
        lemma_file_entries_from_files(prev);
        let s = archive_entries_spec(prev);
        assert(files[files.len() - 1] == f);
        let k = last_slash(f.web_path@)->0;
        let dir = f.web_path@.take(k + 1);
        let s1 = if has_entry(s, false, dir) { s } else { s.push(directory_view(dir)) };
        assert(!has_entry(s1, true, f.web_path@)) by {
            if has_entry(s1, true, f.web_path@) {
                let i = choose|i: int| 0 <= i < s1.len() && (#[trigger] s1[i]).is_file == true
                    && s1[i].full_path == f.web_path@;
                if i < s.len() {
                    assert(s1[i] == s[i]);
                    let m = choose|m: int| 0 <= m < prev.len() && s[i] == file_view(#[trigger] prev[m]);
                    assert(prev[m] == files[m]);
                    assert(files[m].web_path@ != files[files.len() - 1].web_path@);
                } else {
                    assert(!s1[i].is_file);
                }
            }
        }
        let t = archive_entries_spec(files);
        assert(t == s1.push(file_view(f)));
        assert(private_records_spec(s1) == private_records_spec(s)) by {
            if !has_entry(s, false, dir) {
                assert(s1.drop_last() =~= s);
            }
        }
        assert(t.drop_last() =~= s1);
        assert(private_file_records(files) =~= private_file_records(prev).push(
            record_of(file_view(f), hex_decode_spec(or_empty(f.datamap))->0),
        ));
    }
}

/// What a file entry carries that an archive stores: its path, data
/// address, size and extra metadata.
pub open spec fn entry_key(e: ArchiveEntryView) -> (Seq<char>, Seq<char>, u64, Seq<char>) {
    (e.full_path, e.data_address, e.size, e.extra)
}

/// What the file entries of a list of entries carry.
pub open spec fn file_entry_keys(s: Seq<ArchiveEntryView>) -> Set<(Seq<char>, Seq<char>, u64, Seq<char>)> {
    Set::new(
        |k: (Seq<char>, Seq<char>, u64, Seq<char>)|
            exists|i: int| 0 <= i < s.len() && (#[trigger] s[i]).is_file && entry_key(s[i]) == k,
    )
}

/// What a record of a public archive carries: its path, the hexadecimal
/// text of its data address, its size and its extra metadata (empty when
/// none).
pub open spec fn record_key(r: ArchiveRecordView) -> (Seq<char>, Seq<char>, u64, Seq<char>) {
    (
        r.path,
        hex_encode_spec(r.content),
        r.size,
        match r.extra {
            Some(e) => e,
            None => Seq::<char>::empty(),
        },
    )
}

/// What a list of records carries.
pub open spec fn record_keys(rs: Seq<ArchiveRecordView>) -> Set<(Seq<char>, Seq<char>, u64, Seq<char>)> {
    Set::new(
        |k: (Seq<char>, Seq<char>, u64, Seq<char>)|
            exists|i: int| 0 <= i < rs.len() && record_key(#[trigger] rs[i]) == k,
    )
}

/// What a list of files carries.
pub open spec fn file_keys(files: Seq<ArchiveFile>) -> Set<(Seq<char>, Seq<char>, u64, Seq<char>)> {
    Set::new(
        |k: (Seq<char>, Seq<char>, u64, Seq<char>)|
            exists|m: int| 0 <= m < files.len() && entry_key(file_view(#[trigger] files[m])) == k,
    )
}

proof fn lemma_entries_carry_files(files: Seq<ArchiveFile>)
    requires
        forall|m: int| 0 <= m < files.len() ==> last_slash((#[trigger] files[m]).web_path@) is Some,
        forall|m: int, n: int|
            0 <= m < n < files.len() ==> (#[trigger] files[m]).web_path@ != (#[trigger] files[n]).web_path@,
    ensures
        file_entry_keys(archive_entries_spec(files)) == file_keys(files),
{
    let t = archive_entries_spec(files);
    archive_entries_well_formed(files);
    lemma_file_entries_from_files(files);
    assert forall|k: (Seq<char>, Seq<char>, u64, Seq<char>)| #[trigger] file_keys(files).contains(k)
        implies file_entry_keys(t).contains(k) by {
        let m = choose|m: int| 0 <= m < files.len() && entry_key(file_view(#[trigger] files[m])) == k;
        assert(last_slash(files[m].web_path@) is Some);
        assert(has_entry(t, true, files[m].web_path@));
        let i = choose|i: int| 0 <= i < t.len() && (#[trigger] t[i]).is_file == true && t[i].full_path
            == files[m].web_path@;
        let m2 = choose|m2: int| 0 <= m2 < files.len() && t[i] == file_view(#[trigger] files[m2]);
        if m2 != m {
            if m < m2 {
                assert(files[m].web_path@ != files[m2].web_path@);
            } else {
                assert(files[m2].web_path@ != files[m].web_path@);
            }
        }
        assert(entry_key(t[i]) == k);
    }
    assert forall|k: (Seq<char>, Seq<char>, u64, Seq<char>)| #[trigger] file_entry_keys(t).contains(k)
        implies file_keys(files).contains(k) by {
        let i = choose|i: int| 0 <= i < t.len() && (#[trigger] t[i]).is_file && entry_key(t[i]) == k;
        let m = choose|m: int| 0 <= m < files.len() && t[i] == file_view(#[trigger] files[m]);
    }
    assert(file_entry_keys(t) =~= file_keys(files));
}

proof fn lemma_records_carry_entries(s: Seq<ArchiveEntryView>, rs: Seq<ArchiveRecordView>)
    requires
        public_records_spec(s) == Ok::<Seq<ArchiveRecordView>, Seq<char>>(rs),
        forall|i: int| 0 <= i < s.len() && (#[trigger] s[i]).is_file ==> is_lower_hex(s[i].data_address),
    ensures
        record_keys(rs) == file_entry_keys(s),
    decreases s.len(),
{
    if s.len() == 0 {
        assert(record_keys(rs) =~= file_entry_keys(s));
    } else {
        let p = s.drop_last();
        let e = s.last();
        let rs0 = public_records_spec(p)->Ok_0;
        assert forall|i: int| 0 <= i < p.len() && (#[trigger] p[i]).is_file implies is_lower_hex(p[i].data_address) by {
            assert(p[i] == s[i]);
        }
        lemma_records_carry_entries(p, rs0);
        let new_key: Set<(Seq<char>, Seq<char>, u64, Seq<char>)> = if e.is_file {
            set![entry_key(e)]
        } else {
            Set::empty()
        };
        assert(file_entry_keys(s) =~= file_entry_keys(p).union(new_key)) by {
            assert forall|k: (Seq<char>, Seq<char>, u64, Seq<char>)| #[trigger] file_entry_keys(s).contains(k)
                implies file_entry_keys(p).union(new_key).contains(k) by {
                let i = choose|i: int| 0 <= i < s.len() && (#[trigger] s[i]).is_file && entry_key(s[i]) == k;
                if i < p.len() {
                    assert(p[i] == s[i]);
                }
            }
            assert forall|k: (Seq<char>, Seq<char>, u64, Seq<char>)| #[trigger] file_entry_keys(p).union(new_key).contains(k)
                implies file_entry_keys(s).contains(k) by {
                if file_entry_keys(p).contains(k) {
                    let i = choose|i: int| 0 <= i < p.len() && (#[trigger] p[i]).is_file && entry_key(p[i]) == k;
                    assert(s[i] == p[i]);
                } else {
                    assert(s[s.len() - 1] == e);
                }
            }
        }
        if e.is_file {
            let a = xor_name_from_hex_spec(e.data_address)->0;
            assert(rs == rs0.push(record_of(e, a)));
            assert(s[s.len() - 1] == e);
            hex_lower_round_trip(e.data_address);
            assert(record_key(record_of(e, a)) == entry_key(e));
            assert(record_keys(rs) =~= record_keys(rs0).union(new_key)) by {
                assert forall|k: (Seq<char>, Seq<char>, u64, Seq<char>)| #[trigger] record_keys(rs).contains(k)
                    implies record_keys(rs0).union(new_key).contains(k) by {
                    let i = choose|i: int| 0 <= i < rs.len() && record_key(#[trigger] rs[i]) == k;
                    if i < rs0.len() {
                        assert(rs[i] == rs0[i]);
                    }
                }
                assert forall|k: (Seq<char>, Seq<char>, u64, Seq<char>)| #[trigger] record_keys(rs0).union(new_key).contains(k)
                    implies record_keys(rs).contains(k) by {
                    if record_keys(rs0).contains(k) {
                        let i = choose|i: int| 0 <= i < rs0.len() && record_key(#[trigger] rs0[i]) == k;
                        assert(rs[i] == rs0[i]);
                    } else {
                        assert(rs[rs0.len() as int] == record_of(e, a));
                    }
                }
            }
        } else {
            assert(rs == rs0);
        }
    }
}

/// The other way round: an archive's file entries survive being stored
/// and read back. When the file entries of an archive (each with a
/// lower-case hexadecimal data address) are stored as records, and the
/// stored archive is read back as files that carry what the records carry
/// (with distinct paths, each holding a `/`), the archive built from those
/// files has file entries with exactly the same paths, data addresses,
/// sizes and extra metadata as the archive that was stored.
pub proof fn public_archive_entries_round_trip(
    s: Seq<ArchiveEntryView>,
    rs: Seq<ArchiveRecordView>,
    files: Seq<ArchiveFile>,
)
    requires
        public_records_spec(s) == Ok::<Seq<ArchiveRecordView>, Seq<char>>(rs),
        forall|i: int| 0 <= i < s.len() && (#[trigger] s[i]).is_file ==> is_lower_hex(s[i].data_address),
        file_keys(files) == record_keys(rs),
        forall|m: int| 0 <= m < files.len() ==> last_slash((#[trigger] files[m]).web_path@) is Some,
        forall|m: int, n: int|
            0 <= m < n < files.len() ==> (#[trigger] files[m]).web_path@ != (#[trigger] files[n]).web_path@,
    ensures
        file_entry_keys(archive_entries_spec(files)) == file_entry_keys(s),
{
    lemma_entries_carry_files(files);
    lemma_records_carry_entries(s, rs);
}

/// The views of a list of records.
pub open spec fn records_view(v: Seq<ArchiveRecord>) -> Seq<ArchiveRecordView> {
    v.map_values(|r: ArchiveRecord| r@)
}

fn make_record(e: &DwebArchiveEntry, content: Vec<u8>) -> (r: ArchiveRecord)
    ensures
        r@ == record_of(e@, content@),
{
    let extra = if e.extra.as_str().is_empty() {
        None
    } else {
        Some(e.extra.clone())
    };
    ArchiveRecord {
        path: e.full_path.clone(),
        content,
        created: e.created.clone(),
        modified: e.modified.clone(),
        size: e.size,
        extra,
    }
}

proof fn lemma_public_records_err_stays(s: Seq<ArchiveEntryView>, k: int)
    requires
        0 <= k <= s.len(),
        public_records_spec(s.take(k)) is Err,
    ensures
        public_records_spec(s) == public_records_spec(s.take(k)),
    decreases s.len() - k,
{
    if k == s.len() {
        assert(s.take(k) =~= s);
    } else {
        assert(s.drop_last().take(k) =~= s.take(k));
        lemma_public_records_err_stays(s.drop_last(), k);
    }
}

proof fn lemma_private_records_err_stays(s: Seq<ArchiveEntryView>, k: int)
    requires
        0 <= k <= s.len(),
        private_records_spec(s.take(k)) is Err,
    ensures
        private_records_spec(s) == private_records_spec(s.take(k)),
    decreases s.len() - k,
{
    if k == s.len() {
        assert(s.take(k) =~= s);
    } else {
        assert(s.drop_last().take(k) =~= s.take(k));
        lemma_private_records_err_stays(s.drop_last(), k);
    }
}

/// The views of a list of entries.
pub open spec fn entries_view(v: Seq<DwebArchiveEntry>) -> Seq<ArchiveEntryView> {
    v.map_values(|e: DwebArchiveEntry| e@)
}

/// The position of the last `/`.
pub fn rfind_slash(s: &[char]) -> (r: Option<usize>)
    ensures
        match last_slash(s@) {
            Some(k) => r matches Some(i) && i == k,
            None => r is None,
        },
{
    let mut i: usize = s.len();
    assert(s@.take(i as int) =~= s@);
    while i > 0
        invariant
            i <= s.len(),
            last_slash(s@) == last_slash(s@.take(i as int)),
        decreases i,
    {
        assert(s@.take(i as int).drop_last() =~= s@.take(i - 1));
        if s[i - 1] == '/' {
            return Some(i - 1);
        }
        i = i - 1;
    }
    None
}

/// The path from the root of the website of a path read from an archive:
/// what follows the containing directory, from the first `/` on (empty
/// when there is none).
pub open spec fn strip_containing_directory_spec(p: Seq<char>) -> Seq<char> {
    match crate::text::find_char(p, '/') {
        Some(i) => p.skip(i),
        None => Seq::<char>::empty(),
    }
}

/// See [`strip_containing_directory_spec`].
pub fn strip_containing_directory(path: &str) -> (r: String)
    ensures
        r@ == strip_containing_directory_spec(path@),
{
    let p = chars_of(path);
    match crate::text::find_first(p.as_slice(), '/') {
        Some(i) => string_of(slice_from(p.as_slice(), i).as_slice()),
        None => {
            proof {
                assert(p@.skip(p@.len() as int) =~= Seq::<char>::empty());
            }
            String::new()
        },
    }
}

impl DwebArchiveEntry {
    /// The entry of a directory.
    pub fn new_directory(full_path: String) -> (r: DwebArchiveEntry)
        ensures
            r@ == directory_view(full_path@),
    {
        DwebArchiveEntry {
            dweb_type: DwebArchiveEntryType::Directory,
            full_path,
            data_address: String::new(),
            datamap: String::new(),
            created: String::new(),
            modified: String::new(),
            size: 0,
            extra: String::new(),
        }
    }

    /// The entry of a file, with its data address and data map when it has
    /// them (else empty), its dates, size and extra metadata (empty when none).
    pub fn new_file(file: &ArchiveFile) -> (r: DwebArchiveEntry)
        ensures
            r@ == file_view(*file),
    {
        DwebArchiveEntry {
            dweb_type: DwebArchiveEntryType::File,
            full_path: file.web_path.clone(),
            data_address: match &file.data_address {
                Some(a) => a.clone(),
                None => String::new(),
            },
            datamap: match &file.datamap {
                Some(d) => d.clone(),
                None => String::new(),
            },
            created: file.created.clone(),
            modified: file.modified.clone(),
            size: file.size,
            extra: match &file.extra {
                Some(e) => e.clone(),
                None => String::new(),
            },
        }
    }

    /// The entry of a file given by its hexadecimal data address and data
    /// map, dates, size and extra metadata (empty when none).
    pub fn new_file_from_hex(
        full_path: String,
        data_address: String,
        datamap_chunk: String,
        created: String,
        modified: String,
        size: u64,
        extra: Option<String>,
    ) -> (r: DwebArchiveEntry)
        ensures
            r@ == (ArchiveEntryView {
                is_file: true,
                full_path: full_path@,
                data_address: data_address@,
                datamap: datamap_chunk@,
                created: created@,
                modified: modified@,
                size,
                extra: or_empty(extra),
            }),
    {
        DwebArchiveEntry {
            dweb_type: DwebArchiveEntryType::File,
            full_path,
            data_address,
            datamap: datamap_chunk,
            created,
            modified,
            size,
            extra: match extra {
                Some(e) => e,
                None => String::new(),
            },
        }
    }
}

fn contains_entry(entries: &Vec<DwebArchiveEntry>, is_file: bool, path: &[char]) -> (r: bool)
    ensures
        r == has_entry(entries_view(entries@), is_file, path@),
{
    let ghost s = entries_view(entries@);
    let mut i: usize = 0;
    while i < entries.len()
        invariant
            i <= entries.len(),
            s == entries_view(entries@),
            forall|j: int|
                0 <= j < i ==> !((#[trigger] s[j]).is_file == is_file && s[j].full_path == path@),
        decreases entries.len() - i,
    {
        let e = &entries[i];
        let kind_matches = match e.dweb_type {
            DwebArchiveEntryType::File => is_file,
            DwebArchiveEntryType::Directory => !is_file,
        };
        if kind_matches {
            let p = chars_of(e.full_path.as_str());
            if chars_eq(p.as_slice(), path) {
                assert(s[i as int].is_file == is_file && s[i as int].full_path == path@);
                return true;
            }
        }
        i = i + 1;
    }
    false
}

impl DwebArchive {
    /// An archive with no entries and no History metadata.
    pub fn new() -> (r: DwebArchive)
        ensures
            r.entries@.len() == 0,
            r.history_metadata is None,
    {
        DwebArchive { entries: Vec::new(), history_metadata: None }
    }

    /// Adds a file to the entries (see [`add_file_spec`]).
    fn add_file(&mut self, f: &ArchiveFile)
        ensures
            entries_view(final(self).entries@) == add_file_spec(entries_view(old(self).entries@), *f),
            final(self).history_metadata == old(self).history_metadata,
    {
        let path = chars_of(f.web_path.as_str());
        proof {
            lemma_last_slash(path@);
        }
        match rfind_slash(path.as_slice()) {
            Some(k) => {
                assert(k < path.len());
                let dir = slice_range(path.as_slice(), 0, k + 1);
                assert(dir@ =~= f.web_path@.take(k + 1));
                if !contains_entry(&self.entries, false, dir.as_slice()) {
                    self.entries.push(DwebArchiveEntry::new_directory(string_of(dir.as_slice())));
                    assert(entries_view(self.entries@) =~= entries_view(old(self).entries@).push(
                        directory_view(dir@),
                    ));
                }
                let ghost s1 = entries_view(self.entries@);
                if !contains_entry(&self.entries, true, path.as_slice()) {
                    self.entries.push(DwebArchiveEntry::new_file(f));
                    assert(entries_view(self.entries@) =~= s1.push(file_view(*f)));
                }
            },
            None => {},
        }
    }

    /// The archive of a list of files, read in order: each file's directory
    /// (once) and the file (once), for each file whose path holds a `/`.
    pub fn from_archive_files(files: &Vec<ArchiveFile>) -> (r: DwebArchive)
        ensures
            entries_view(r.entries@) == archive_entries_spec(files@),
            r.history_metadata is None,
    {
        let mut archive = DwebArchive::new();
        assert(entries_view(archive.entries@) =~= archive_entries_spec(files@.take(0)));
        let mut i: usize = 0;
        while i < files.len()
            invariant
                i <= files.len(),
                archive.history_metadata is None,
                entries_view(archive.entries@) == archive_entries_spec(files@.take(i as int)),
            decreases files.len() - i,
        {
            archive.add_file(&files[i]);
            assert(files@.take(i + 1).drop_last() =~= files@.take(i as int));
            i = i + 1;
        }
        assert(files@.take(files.len() as int) =~= files@);
        archive
    }

    /// The files to store in a public archive: the file entries with their
    /// data addresses (see [`public_records_spec`]).
    pub fn to_public_archive(&self) -> (r: Result<Vec<ArchiveRecord>, ArchiveConversionError>)
        ensures
            match public_records_spec(entries_view(self.entries@)) {
                Ok(rs) => r matches Ok(v) && records_view(v@) == rs,
                Err(a) => r matches Err(ArchiveConversionError::InvalidDataAddress { data_address })
                    && data_address@ == a,
            },
    {
        let ghost s = entries_view(self.entries@);
        let mut records: Vec<ArchiveRecord> = Vec::new();
        assert(records_view(records@) =~= Seq::<ArchiveRecordView>::empty());
        assert(s.take(0) =~= Seq::<ArchiveEntryView>::empty());
        let mut i: usize = 0;
        while i < self.entries.len()
            invariant
                i <= self.entries.len(),
                s == entries_view(self.entries@),
                public_records_spec(s.take(i as int)) == Ok::<Seq<ArchiveRecordView>, Seq<char>>(
                    records_view(records@),
                ),
            decreases self.entries.len() - i,
        {
            let e = &self.entries[i];
            assert(s.take(i + 1).drop_last() =~= s.take(i as int));
            assert(s.take(i + 1).last() == e@);
            match e.dweb_type {
                DwebArchiveEntryType::File => {
                    match xor_name_from_hex(e.data_address.as_str()) {
                        Some(a) => {
                            let ghost before = records_view(records@);
                            let rec = make_record(e, a);
                            records.push(rec);
                            assert(records_view(records@) =~= before.push(rec@));
                        },
                        None => {
                            proof {
                                lemma_public_records_err_stays(s, i as int + 1);
                            }
                            return Err(
                                ArchiveConversionError::InvalidDataAddress {
                                    data_address: e.data_address.clone(),
                                },
                            );
                        },
                    }
                },
                DwebArchiveEntryType::Directory => {},
            }
            i = i + 1;
        }
        assert(s.take(self.entries.len() as int) =~= s);
        Ok(records)
    }

    /// The files to store in a private archive: the file entries with their
    /// data maps (see [`private_records_spec`]).
    pub fn to_private_archive(&self) -> (r: Result<Vec<ArchiveRecord>, ArchiveConversionError>)
        ensures
            match private_records_spec(entries_view(self.entries@)) {
                Ok(rs) => r matches Ok(v) && records_view(v@) == rs,
                Err(d) => r matches Err(ArchiveConversionError::InvalidDatamap { datamap, .. })
                    && datamap@ == d,
            },
    {
        let ghost s = entries_view(self.entries@);
        let mut records: Vec<ArchiveRecord> = Vec::new();
        assert(records_view(records@) =~= Seq::<ArchiveRecordView>::empty());
        assert(s.take(0) =~= Seq::<ArchiveEntryView>::empty());
        let mut i: usize = 0;
        while i < self.entries.len()
            invariant
                i <= self.entries.len(),
                s == entries_view(self.entries@),
                private_records_spec(s.take(i as int)) == Ok::<Seq<ArchiveRecordView>, Seq<char>>(
                    records_view(records@),
                ),
            decreases self.entries.len() - i,
        {
            let e = &self.entries[i];
            assert(s.take(i + 1).drop_last() =~= s.take(i as int));
            assert(s.take(i + 1).last() == e@);
            match e.dweb_type {
                DwebArchiveEntryType::File => {
                    match hex_decode(e.datamap.as_str()) {
                        Ok(d) => {
                            let ghost before = records_view(records@);
                            let rec = make_record(e, d);
                            records.push(rec);
                            assert(records_view(records@) =~= before.push(rec@));
                        },
                        Err(reason) => {
                            proof {
                                lemma_private_records_err_stays(s, i as int + 1);
                            }
                            return Err(
                                ArchiveConversionError::InvalidDatamap {
                                    datamap: e.datamap.clone(),
                                    reason,
                                },
                            );
                        },
                    }
                },
                DwebArchiveEntryType::Directory => {},
            }
            i = i + 1;
        }
        assert(s.take(self.entries.len() as int) =~= s);
        Ok(records)
    }

    /// The archive of a public or private archive's files; for any other
    /// type, an empty archive.
    pub fn from_dual_archive(dweb_type: DwebType, files: &Vec<ArchiveFile>) -> (r: DwebArchive)
        ensures
            entries_view(r.entries@) == (if dweb_type == DwebType::PublicArchive || dweb_type
                == DwebType::PrivateArchive {
                archive_entries_spec(files@)
            } else {
                Seq::<ArchiveEntryView>::empty()
            }),
            r.history_metadata is None,
    {
        match dweb_type {
            DwebType::PublicArchive | DwebType::PrivateArchive => Self::from_archive_files(files),
            _ => {
                let r = DwebArchive::new();
                assert(entries_view(r.entries@) =~= Seq::<ArchiveEntryView>::empty());
                r
            },
        }
    }
}

} // verus!
