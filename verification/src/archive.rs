use vstd::prelude::*;
use std::io::{Cursor, Read, Write};
use crate::assets::{archive_entry, archive_entry_name};
use crate::session::opt_text;
use crate::storm::starts_with;

verus! {

/// What `ZipArchive::new` then `by_name(name)` and `read_to_end` give for an
/// archive: the bytes of the entry, no entry, or the error's text.
pub uninterp spec fn zip_lookup(archive: Seq<u8>, name: Seq<char>) -> Result<Option<Seq<u8>>, Seq<char>>;

/// A lookup result as plain values.
pub open spec fn lookup_view(r: Result<Option<Vec<u8>>, String>) -> Result<Option<Seq<u8>>, Seq<char>> {
    match r {
        Ok(Some(v)) => Ok(Some(v@)),
        Ok(None) => Ok(None),
        Err(e) => Err(e@),
    }
}

/// `zip::ZipArchive::new` over the bytes, `by_name(name)` and `read_to_end`
/// of the entry; `FileNotFound` becomes `Ok(None)`. The contract names the
/// result [`zip_lookup`], a function of the bytes and the name alone.
#[verifier::external_body]
fn read_zip_entry(archive: &[u8], name: &str) -> (r: Result<Option<Vec<u8>>, String>)
    ensures
        lookup_view(r) == zip_lookup(archive@, name@),
{
    let mut zip = match zip::ZipArchive::new(Cursor::new(archive.to_vec())) {
        Ok(z) => z,
        Err(e) => return Err(e.to_string()),
    };
    let mut bytes = Vec::new();
    let r = match zip.by_name(name) {
        Ok(mut file) => file.read_to_end(&mut bytes).map(|_| Some(bytes)).map_err(|e| e.to_string()),
        Err(zip::result::ZipError::FileNotFound) => Ok(None),
        Err(e) => Err(e.to_string()),
    };
    r
}

/// Reads one file of a stored workspace archive; `None` when the archive has
/// no file of that name.
pub fn extract_zip_entry(archive_bytes: &[u8], logical_path: &str) -> (r: Result<Option<Vec<u8>>, String>)
    ensures
        lookup_view(r) == zip_lookup(archive_bytes@, logical_path@),
{
    read_zip_entry(archive_bytes, logical_path)
}

/// The entries a workspace archive holds: each file under its archive name,
/// in the order given, without the files under `inputs/`.
pub open spec fn archive_entries(files: Seq<(Seq<char>, Seq<u8>)>) -> Seq<(Seq<char>, Seq<u8>)>
    decreases files.len(),
{
    if files.len() == 0 {
        Seq::empty()
    } else {
        let rest = archive_entries(files.drop_last());
        match archive_entry(files.last().0) {
            Some(n) => rest.push((n, files.last().1)),
            None => rest,
        }
    }
}

/// Files as plain values.
pub open spec fn files_view(files: Seq<(String, Vec<u8>)>) -> Seq<(Seq<char>, Seq<u8>)> {
    files.map_values(|f: (String, Vec<u8>)| (f.0@, f.1@))
}

/// Names the files of a workspace for its archive, leaving out the inputs.
pub fn workspace_archive_entries(files: &Vec<(String, Vec<u8>)>) -> (r: Vec<(String, Vec<u8>)>)
    ensures
        files_view(r@) == archive_entries(files_view(files@)),
{
    let mut r: Vec<(String, Vec<u8>)> = Vec::new();
    let mut i: usize = 0;
    while i < files.len()
        invariant
            i <= files@.len(),
            files_view(r@) == archive_entries(files_view(files@).take(i as int)),
        decreases files@.len() - i,
    {
        let ghost before = files_view(files@).take(i as int);
        assert(files_view(files@).take(i + 1).drop_last() == before);
        assert(files_view(files@).take(i + 1).last() == (files@[i as int].0@, files@[i as int].1@));
        match archive_entry_name(files[i].0.as_str()) {
            Some(name) => {
                let bytes = files[i].1.clone();
                let ghost old_r = files_view(r@);
                r.push((name, bytes));
                assert(files_view(r@) =~= old_r.push((r@[r@.len() - 1].0@, r@[r@.len() - 1].1@)));
            },
            None => {},
        }
        i = i + 1;
    }
    assert(files_view(files@).take(files@.len() as int) =~= files_view(files@));
    r
}

/// A lookup that finds an entry holding `b`.
pub open spec fn found(b: Seq<u8>) -> Result<Option<Seq<u8>>, Seq<char>> {
    Ok(Some(b))
}

/// A lookup that finds no entry of the name asked for.
pub open spec fn absent() -> Result<Option<Seq<u8>>, Seq<char>> {
    Ok(None)
}

/// The names of archive entries, in order.
pub open spec fn entry_names(entries: Seq<(Seq<char>, Seq<u8>)>) -> Seq<Seq<char>> {
    entries.map_values(|e: (Seq<char>, Seq<u8>)| e.0)
}

/// `archive` holds exactly `entries`: a lookup of an entry's name reads back
/// its bytes, and a lookup of any other name finds nothing.
pub open spec fn packed(archive: Seq<u8>, entries: Seq<(Seq<char>, Seq<u8>)>) -> bool {
    &&& forall|i: int| #![trigger entries[i]] 0 <= i < entries.len() ==> zip_lookup(archive, entries[i].0) == found(entries[i].1)
    &&& forall|name: Seq<char>| !entry_names(entries).contains(name) ==> #[trigger] zip_lookup(archive, name) == absent()
}

/// `zip::ZipWriter` over an in-memory buffer: `start_file` (deflated, mode
/// 0644) and `write_all` for each entry in order, then `finish`. The contract
/// claims that an archive it returns holds exactly the entries: the crate
/// refuses a repeated name (`insert_file_data`), stores each name's bytes as
/// given and, since the names are UTF-8, `by_name` finds exactly the names
/// written. Each entry is stamped with the time of writing, so the bytes of
/// the archive are not claimed, nor when the crate refuses the entries.
#[verifier::external_body]
fn zip_pack(entries: &Vec<(String, Vec<u8>)>) -> (r: Result<Vec<u8>, String>)
    ensures
        r matches Ok(z) ==> packed(z@, files_view(entries@)),
{
    let mut writer = zip::ZipWriter::new(Cursor::new(Vec::new()));
    let options = zip::write::SimpleFileOptions::default()
        .compression_method(zip::CompressionMethod::Deflated)
        .unix_permissions(0o644);
    for (name, bytes) in entries {
        writer.start_file(name.as_str(), options).map_err(|e| e.to_string())?;
        writer.write_all(bytes).map_err(|e| e.to_string())?;
    }
    writer.finish().map(|c| c.into_inner()).map_err(|e| e.to_string())
}

/// Packs the files of a workspace (relative names and bytes) into the archive
/// kept for preview and download: the archive holds exactly the workspace's
/// archive entries.
pub fn workspace_archive(files: &Vec<(String, Vec<u8>)>) -> (r: Result<Vec<u8>, String>)
    ensures
        r matches Ok(z) ==> packed(z@, archive_entries(files_view(files@))),
{
    let entries = workspace_archive_entries(files);
    zip_pack(&entries)
}

proof fn lemma_archive_entries_members(files: Seq<(Seq<char>, Seq<u8>)>)
    ensures
        forall|i: int| #![trigger files[i]] 0 <= i < files.len() && archive_entry(files[i].0) is Some
            ==> archive_entries(files).contains((archive_entry(files[i].0)->0, files[i].1)),
        forall|k: int| #![trigger archive_entries(files)[k]] 0 <= k < archive_entries(files).len()
            ==> !starts_with(archive_entries(files)[k].0, "inputs/"@),
    decreases files.len(),
{
    if files.len() > 0 {
        let d = files.drop_last();
        lemma_archive_entries_members(d);
        let rest = archive_entries(d);
        assert forall|i: int| #![trigger files[i]] 0 <= i < files.len() && archive_entry(files[i].0) is Some
            implies archive_entries(files).contains((archive_entry(files[i].0)->0, files[i].1)) by {
            if i < files.len() - 1 {
                assert(d[i] == files[i]);
                let k = choose|k: int| 0 <= k < rest.len() && rest[k] == (archive_entry(d[i].0)->0, d[i].1);
                assert(archive_entries(files)[k] == rest[k]);
            } else {
                assert(archive_entries(files) == rest.push((archive_entry(files.last().0)->0, files.last().1)));
                assert(archive_entries(files)[rest.len() as int] == (archive_entry(files[i].0)->0, files[i].1));
            }
        }
        assert forall|k: int| #![trigger archive_entries(files)[k]] 0 <= k < archive_entries(files).len()
            implies !starts_with(archive_entries(files)[k].0, "inputs/"@) by {
            if k < rest.len() {
                assert(archive_entries(files)[k] == rest[k]);
            }
        }
    }
}

/// A workspace archive reads back each workspace file under its archive name,
/// and finds nothing under `inputs/`.
pub proof fn law_archive_reads_back(z: Seq<u8>, files: Seq<(Seq<char>, Seq<u8>)>, path: Seq<char>)
    requires
        packed(z, archive_entries(files)),
    ensures
        forall|i: int| #![trigger files[i]] 0 <= i < files.len() && archive_entry(files[i].0) is Some
            ==> zip_lookup(z, archive_entry(files[i].0)->0) == found(files[i].1),
        starts_with(path, "inputs/"@) ==> zip_lookup(z, path) == absent(),
{
    let es = archive_entries(files);
    lemma_archive_entries_members(files);
    assert forall|i: int| #![trigger files[i]] 0 <= i < files.len() && archive_entry(files[i].0) is Some
        implies zip_lookup(z, archive_entry(files[i].0)->0) == found(files[i].1) by {
        let k = choose|k: int| 0 <= k < es.len() && es[k] == (archive_entry(files[i].0)->0, files[i].1);
        assert(es[k].0 == archive_entry(files[i].0)->0);
    }
    if starts_with(path, "inputs/"@) {
        assert(!entry_names(es).contains(path)) by {
            if entry_names(es).contains(path) {
                let k = choose|k: int| 0 <= k < entry_names(es).len() && entry_names(es)[k] == path;
                assert(es[k].0 == path);
            }
        }
    }
}

} // verus!
