use bluehash::manifest::{
    load_manifest, Manifest, ManifestEntry, ENCRYPTED_DIR, HASHNET_DIR, MANIFEST_EXTENSION,
    MANIFEST_NAME, STATE_DIR,
};

fn entry(name: &str, size: u64) -> ManifestEntry {
    ManifestEntry {
        original_name: name.to_string(),
        original_path: format!("C:\\{name}"),
        sha256_original: "00".to_string(),
        encrypted_at: 7,
        size_bytes: size,
    }
}

#[test]
fn directories() {
    assert_eq!((HASHNET_DIR, ENCRYPTED_DIR, STATE_DIR), ("Hashnet", "encrypted", ".hashnet"));
    assert_eq!((MANIFEST_NAME, MANIFEST_EXTENSION), ("manifest", "json"));
}

#[test]
fn missing_manifest_is_blank() {
    let manifest = load_manifest(None);
    assert_eq!(manifest.version, 2);
    assert!(manifest.files.is_empty());
}

#[test]
fn read_manifest_is_kept() {
    let mut read = Manifest::default();
    assert_eq!(read.version, 0);
    read.insert("p".into(), entry("a", 1));
    let manifest = load_manifest(Some(read));
    assert_eq!(manifest.version, 0);
    assert_eq!(manifest.get("p").unwrap().original_name, "a");
}

#[test]
fn path_has_one_entry() {
    let mut manifest = Manifest::blank();
    manifest.insert("p".into(), entry("a", 1));
    manifest.insert("q".into(), entry("b", 2));
    manifest.insert("p".into(), entry("c", 3));
    assert_eq!(manifest.files.len(), 2);
    assert_eq!(manifest.get("p").unwrap().original_name, "c");
    assert_eq!(manifest.get("q").unwrap().original_name, "b");
    assert!(manifest.get("r").is_none());
    assert!(manifest.get("").is_none());
}

#[test]
fn files_are_listed_once() {
    let mut manifest = Manifest::blank();
    manifest.insert("p".into(), entry("a", 1));
    manifest.insert("q".into(), entry("b", 2));
    let infos = manifest.clone().file_infos();
    assert_eq!(infos.len(), 2);
    assert_eq!((infos[0].enc_path.as_str(), infos[0].original_name.as_str()), ("p", "a"));
    assert_eq!((infos[0].size_bytes, infos[0].encrypted_at), (1, 7));
    assert_eq!(infos[1].enc_path, "q");
    assert!(infos.iter().all(|f| f.network_id.is_none()));
}

#[test]
fn default_entry_is_empty() {
    let entry = ManifestEntry::default();
    assert_eq!(entry.original_name, "");
    assert_eq!(entry.original_path, "");
    assert_eq!(entry.sha256_original, "");
    assert_eq!((entry.encrypted_at, entry.size_bytes), (0, 0));
}
