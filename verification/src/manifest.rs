//! The manifest: which encrypted file came from which original.

use crate::ipc::FileInfo;
use vstd::prelude::*;

verus! {

/// The manifest version that a new manifest has.
pub const MANIFEST_VERSION: u32 = 2;

/// The directory of the agent's files, in the user's home directory.
pub const HASHNET_DIR: &'static str = "Hashnet";

/// The directory of the encrypted files, in `HASHNET_DIR`.
pub const ENCRYPTED_DIR: &'static str = "encrypted";

/// The directory of the agent's own files, in `HASHNET_DIR`.
pub const STATE_DIR: &'static str = ".hashnet";

/// The name of the manifest's file, in `STATE_DIR`, without its extension.
pub const MANIFEST_NAME: &'static str = "manifest";

/// The extension of the manifest's file.
pub const MANIFEST_EXTENSION: &'static str = "json";

/// What is known of the original of an encrypted file.
#[derive(Debug)]
pub struct ManifestEntry {
    pub original_name: String,
    pub original_path: String,
    pub sha256_original: String,
    pub encrypted_at: u64,
    pub size_bytes: u64,
}

impl Default for ManifestEntry {
    fn default() -> (r: Self)
        ensures
            r.original_name@ == Seq::<char>::empty(),
            r.original_path@ == Seq::<char>::empty(),
            r.sha256_original@ == Seq::<char>::empty(),
            r.encrypted_at == 0,
            r.size_bytes == 0,
    {
        ManifestEntry {
            original_name: String::new(),
            original_path: String::new(),
            sha256_original: String::new(),
            encrypted_at: 0,
            size_bytes: 0,
        }
    }
}

impl Clone for ManifestEntry {
    fn clone(&self) -> (r: Self)
        ensures
            r == *self,
    {
        ManifestEntry {
            original_name: self.original_name.clone(),
            original_path: self.original_path.clone(),
            sha256_original: self.sha256_original.clone(),
            encrypted_at: self.encrypted_at,
            size_bytes: self.size_bytes,
        }
    }
}

/// The entries of all encrypted files, each under the path of its file.
#[derive(Debug)]
pub struct Manifest {
    pub version: u32,
    pub files: Vec<(String, ManifestEntry)>,
}

/// Whether `path` is the path of the entry at place `i`.
pub open spec fn filed_at(files: Seq<(String, ManifestEntry)>, path: Seq<char>, i: int) -> bool {
    0 <= i < files.len() && files[i].0@ == path
}

impl View for Manifest {
    type V = Map<Seq<char>, ManifestEntry>;

    open spec fn view(&self) -> Map<Seq<char>, ManifestEntry> {
        Map::new(
            |path: Seq<char>| exists|i: int| filed_at(self.files@, path, i),
            |path: Seq<char>| self.files@[choose|i: int| filed_at(self.files@, path, i)].1,
        )
    }
}

impl Default for Manifest {
    fn default() -> (r: Self)
        ensures
            r.wf(),
            r.version == 0,
            r.files@.len() == 0,
    {
        Manifest { version: 0, files: Vec::new() }
    }
}

impl Clone for Manifest {
    fn clone(&self) -> (r: Self)
        ensures
            r.version == self.version,
            r.files@ == self.files@,
    {
        let mut files: Vec<(String, ManifestEntry)> = Vec::new();
        let mut i: usize = 0;
        while i < self.files.len()
            invariant
                i <= self.files@.len(),
                files@ == self.files@.take(i as int),
            decreases self.files@.len() - i,
        {
            files.push((self.files[i].0.clone(), self.files[i].1.clone()));
            i += 1;
        }
        Manifest { version: self.version, files }
    }
}

/// An entry as the tray lists it. The manifest holds personal files alone.
pub open spec fn listed(file: (String, ManifestEntry)) -> FileInfo {
    FileInfo {
        enc_path: file.0,
        original_name: file.1.original_name,
        size_bytes: file.1.size_bytes,
        encrypted_at: file.1.encrypted_at,
        network_id: None,
    }
}

impl Manifest {
    /// No path has two entries.
    pub open spec fn wf(&self) -> bool {
        forall|i: int, j: int|
            0 <= i < j < self.files@.len() ==> #[trigger] self.files@[i].0@
                != #[trigger] self.files@[j].0@
    }

    /// A manifest without files.
    pub fn blank() -> (r: Self)
        ensures
            r.wf(),
            r.version == MANIFEST_VERSION,
            r.files@.len() == 0,
    {
        Manifest { version: MANIFEST_VERSION, files: Vec::new() }
    }

    proof fn lemma_view_at(&self, i: int)
        requires
            self.wf(),
            0 <= i < self.files@.len(),
        ensures
            self@.dom().contains(self.files@[i].0@),
            self@[self.files@[i].0@] == self.files@[i].1,
    {
        let path = self.files@[i].0@;
        assert(filed_at(self.files@, path, i));
        let j = choose|j: int| filed_at(self.files@, path, j);
        assert(filed_at(self.files@, path, j));
        if j < i {
            assert(self.files@[j].0@ != self.files@[i].0@);
        } else if i < j {
            assert(self.files@[i].0@ != self.files@[j].0@);
        }
    }

    /// The place of the entry of `path`, if there is one.
    fn place(&self, path: &str) -> (r: Option<usize>)
        ensures
            match r {
                Some(i) => filed_at(self.files@, path@, i as int),
                None => forall|i: int| !filed_at(self.files@, path@, i),
            },
    {
        let wanted = path.to_owned();
        let mut i: usize = 0;
        while i < self.files.len()
            invariant
                i <= self.files@.len(),
                wanted@ == path@,
                forall|k: int| k < i ==> !filed_at(self.files@, path@, k),
            decreases self.files@.len() - i,
        {
            if self.files[i].0 == wanted {
                return Some(i);
            }
            i += 1;
        }
        None
    }

    /// The entry of the encrypted file at `path`, if there is one.
    pub fn get(&self, path: &str) -> (r: Option<&ManifestEntry>)
        requires
            self.wf(),
        ensures
            match r {
                Some(entry) => self@.dom().contains(path@) && self@[path@] == *entry,
                None => !self@.dom().contains(path@),
            },
    {
        match self.place(path) {
            Some(i) => {
                proof {
                    self.lemma_view_at(i as int);
                }
                Some(&self.files[i].1)
            },
            None => None,
        }
    }

    /// Files `entry` under `path`, in place of an entry that stands there.
    pub fn insert(&mut self, path: String, entry: ManifestEntry)
        requires
            old(self).wf(),
        ensures
            final(self).wf(),
            final(self).version == old(self).version,
            final(self)@ == old(self)@.insert(path@, entry),
    {
        let ghost before = *self;
        match self.place(&path) {
            Some(i) => {
                self.files[i] = (path, entry);
                proof {
                    let after = *self;
                    assert forall|p: Seq<char>|
                        after@.dom().contains(p) == before@.insert(path@, entry).dom().contains(
                            p,
                        ) by {
                        if p == path@ {
                            assert(filed_at(after.files@, p, i as int));
                        } else if before@.dom().contains(p) {
                            let j = choose|j: int| filed_at(before.files@, p, j);
                            assert(filed_at(after.files@, p, j));
                        } else if after@.dom().contains(p) {
                            let j = choose|j: int| filed_at(after.files@, p, j);
                            assert(filed_at(before.files@, p, j));
                        }
                    }
                    assert forall|p: Seq<char>| #[trigger]
                        after@.dom().contains(p) implies after@[p] == before@.insert(
                        path@,
                        entry,
                    )[p] by {
                        let j = choose|j: int| filed_at(after.files@, p, j);
                        after.lemma_view_at(j);
                        before.lemma_view_at(j);
                        if p == path@ {
                            after.lemma_view_at(i as int);
                        }
                    }
                    assert(after@ =~= before@.insert(path@, entry));
                }
            },
            None => {
                self.files.push((path, entry));
                proof {
                    let after = *self;
                    let last = before.files@.len() as int;
                    assert forall|k: int, j: int|
                        0 <= k < j < after.files@.len() implies #[trigger] after.files@[k].0@
                        != #[trigger] after.files@[j].0@ by {
                        if j == last {
                            assert(!filed_at(before.files@, path@, k));
                        }
                    }
                    assert forall|p: Seq<char>|
                        after@.dom().contains(p) == before@.insert(path@, entry).dom().contains(
                            p,
                        ) by {
                        if p == path@ {
                            assert(filed_at(after.files@, p, last));
                        } else if before@.dom().contains(p) {
                            let j = choose|j: int| filed_at(before.files@, p, j);
                            assert(filed_at(after.files@, p, j));
                        } else if after@.dom().contains(p) {
                            let j = choose|j: int| filed_at(after.files@, p, j);
                            assert(filed_at(before.files@, p, j));
                        }
                    }
                    assert forall|p: Seq<char>| #[trigger]
                        after@.dom().contains(p) implies after@[p] == before@.insert(
                        path@,
                        entry,
                    )[p] by {
                        let j = choose|j: int| filed_at(after.files@, p, j);
                        after.lemma_view_at(j);
                        if j < last {
                            before.lemma_view_at(j);
                            assert(!filed_at(before.files@, path@, j));
                        }
                    }
                    assert(after@ =~= before@.insert(path@, entry));
                }
            },
        }
    }

    /// All files, as the tray lists them.
    pub fn file_infos(&self) -> (r: Vec<FileInfo>)
        ensures
            r@ == self.files@.map_values(|file: (String, ManifestEntry)| listed(file)),
            r@.len() == self.files@.len(),
            forall|i: int|
                0 <= i < r@.len() ==> {
                    &&& (#[trigger] r@[i]).enc_path == self.files@[i].0
                    &&& r@[i].original_name == self.files@[i].1.original_name
                    &&& r@[i].size_bytes == self.files@[i].1.size_bytes
                    &&& r@[i].encrypted_at == self.files@[i].1.encrypted_at
                    &&& r@[i].network_id is None
                },
    {
        let mut out: Vec<FileInfo> = Vec::new();
        let mut i: usize = 0;
        while i < self.files.len()
            invariant
                i <= self.files@.len(),
                out@ == self.files@.take(i as int).map_values(
                    |file: (String, ManifestEntry)| listed(file),
                ),
            decreases self.files@.len() - i,
        {
            let entry = &self.files[i].1;
            out.push(
                FileInfo {
                    enc_path: self.files[i].0.clone(),
                    original_name: entry.original_name.clone(),
                    size_bytes: entry.size_bytes,
                    encrypted_at: entry.encrypted_at,
                    network_id: None,
                },
            );
            i += 1;
        }
        assert(self.files@.take(i as int) == self.files@);
        out
    }
}

/// The manifest to start with: the one that was read, or a blank one where
/// reading it failed.
pub fn load_manifest(parsed: Option<Manifest>) -> (r: Manifest)
    requires
        parsed is Some ==> parsed->0.wf(),
    ensures
        r.wf(),
        match parsed {
            Some(manifest) => r == manifest,
            None => r.version == MANIFEST_VERSION && r.files@.len() == 0,
        },
{
    match parsed {
        Some(manifest) => manifest,
        None => Manifest::blank(),
    }
}

// ---- Laws ---------------------------------------------------------------

/// Seen as a map, a manifest has an entry for each of its files, the one that is
/// filed with it, and no others.
pub proof fn manifest_is_seen_by_its_files(manifest: Manifest)
    requires
        forall|i: int, j: int|
            0 <= i < j < manifest.files@.len() ==> #[trigger] manifest.files@[i].0@
                != #[trigger] manifest.files@[j].0@,
    ensures
        manifest.wf(),
        forall|i: int|
            0 <= i < manifest.files@.len() ==> manifest@.dom().contains(
                (#[trigger] manifest.files@[i]).0@,
            ) && manifest@[manifest.files@[i].0@] == manifest.files@[i].1,
        forall|path: Seq<char>| #[trigger]
            manifest@.dom().contains(path) ==> exists|i: int|
                0 <= i < manifest.files@.len() && (#[trigger] manifest.files@[i]).0@ == path,
{
    assert forall|i: int| 0 <= i < manifest.files@.len() implies manifest@.dom().contains(
        (#[trigger] manifest.files@[i]).0@,
    ) && manifest@[manifest.files@[i].0@] == manifest.files@[i].1 by {
        manifest.lemma_view_at(i);
    }
    assert forall|path: Seq<char>| #[trigger] manifest@.dom().contains(path) implies exists|i: int|
        0 <= i < manifest.files@.len() && (#[trigger] manifest.files@[i]).0@ == path by {
        let i = choose|i: int| filed_at(manifest.files@, path, i);
        assert(manifest.files@[i].0@ == path);
    }
}

/// The list of all files names each file of the manifest once, with the original
/// name, the size and the time of encryption of its entry and without a network,
/// and no other.
pub proof fn every_file_is_listed_once(manifest: Manifest, infos: Seq<FileInfo>)
    requires
        manifest.wf(),
        infos == manifest.files@.map_values(|file: (String, ManifestEntry)| listed(file)),
    ensures
        forall|i: int|
            0 <= i < infos.len() ==> {
                &&& manifest@.dom().contains((#[trigger] infos[i]).enc_path@)
                &&& manifest@[infos[i].enc_path@].original_name == infos[i].original_name
                &&& manifest@[infos[i].enc_path@].size_bytes == infos[i].size_bytes
                &&& manifest@[infos[i].enc_path@].encrypted_at == infos[i].encrypted_at
                &&& infos[i].network_id is None
            },
        infos.len() == manifest.files@.len(),
        forall|path: Seq<char>| #[trigger]
            manifest@.dom().contains(path) ==> exists|i: int|
                0 <= i < infos.len() && (#[trigger] infos[i]).enc_path@ == path,
        forall|i: int, j: int|
            0 <= i < j < infos.len() ==> (#[trigger] infos[i]).enc_path@ != (
            #[trigger] infos[j]).enc_path@,
{
    assert forall|i: int| 0 <= i < infos.len() implies {
        &&& manifest@.dom().contains((#[trigger] infos[i]).enc_path@)
        &&& manifest@[infos[i].enc_path@].original_name == infos[i].original_name
        &&& manifest@[infos[i].enc_path@].size_bytes == infos[i].size_bytes
        &&& manifest@[infos[i].enc_path@].encrypted_at == infos[i].encrypted_at
        &&& infos[i].network_id is None
    } by {
        manifest.lemma_view_at(i);
    }
    assert forall|path: Seq<char>| #[trigger] manifest@.dom().contains(path) implies exists|i: int|
        0 <= i < infos.len() && (#[trigger] infos[i]).enc_path@ == path by {
        let i = choose|i: int| filed_at(manifest.files@, path, i);
        assert(infos[i].enc_path@ == path);
    }
}

} // verus!
