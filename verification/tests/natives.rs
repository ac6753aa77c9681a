use std::io::Write;
use rcraft::errors::LauncherError;
use rcraft::models::{Extract, Library, LibraryArtifact, LibraryDownloads, OsRule, Rule};
use rcraft::natives::{
    extract_native_entries, native_artifact, native_cache_name, natives_need_repair,
};

fn zip_bytes(entries: &[(&str, &[u8])], dirs: &[&str]) -> Vec<u8> {
    let mut w = zip::ZipWriter::new(std::io::Cursor::new(Vec::new()));
    let opts = zip::write::SimpleFileOptions::default()
        .compression_method(zip::CompressionMethod::Stored);
    for d in dirs {
        w.add_directory(*d, opts).unwrap();
    }
    for (name, data) in entries {
        w.start_file(*name, opts).unwrap();
        w.write_all(data).unwrap();
    }
    w.finish().unwrap().into_inner()
}

#[test]
fn extraction_flattens_and_excludes() {
    // Members under an excluded prefix are skipped, directory members are
    // skipped, and kept members land under their file name only.
    let bytes = zip_bytes(
        &[
            ("native/linux/liblwjgl.so", b"ELF-A"),
            ("META-INF/MANIFEST.MF", b"Manifest-Version: 1.0"),
            ("libopenal.so", b"ELF-B"),
        ],
        &["native/", "native/linux/"],
    );
    let excludes = vec!["META-INF/".to_string()];
    let files = extract_native_entries(bytes, &excludes).unwrap();
    let got: Vec<(&str, &[u8])> =
        files.iter().map(|(n, d)| (n.as_str(), d.as_slice())).collect();
    assert_eq!(
        got,
        vec![("liblwjgl.so", b"ELF-A".as_slice()), ("libopenal.so", b"ELF-B".as_slice())]
    );
}

#[test]
fn extraction_exclude_matches_by_prefix() {
    let bytes = zip_bytes(&[("META-INF/x/y.txt", b"1"), ("META.txt", b"2")], &[]);
    let excludes = vec!["META-INF".to_string()];
    let files = extract_native_entries(bytes, &excludes).unwrap();
    // "META.txt" does not start with "META-INF" and stays.
    assert_eq!(files.len(), 1);
    assert_eq!(files[0].0, "META.txt");
    assert_eq!(files[0].1, b"2");
}

#[test]
fn extraction_rejects_garbage() {
    let bytes = vec![0u8; 16];
    assert!(matches!(
        extract_native_entries(bytes, &vec![]),
        Err(LauncherError::ExtractionFailure)
    ));
}

fn native_lib(
    natives: Option<Vec<(String, String)>>,
    classifiers: Option<Vec<(String, LibraryArtifact)>>,
    artifact: Option<LibraryArtifact>,
    name: &str,
) -> Library {
    Library {
        name: name.to_string(),
        downloads: Some(LibraryDownloads { artifact, classifiers }),
        natives,
        rules: None,
        extract: None,
    }
}

fn art(url: &str, path: &str) -> LibraryArtifact {
    LibraryArtifact { url: url.to_string(), path: path.to_string() }
}

#[test]
fn native_artifact_by_explicit_map() {
    let lib = native_lib(
        Some(vec![("linux".to_string(), "natives-linux-custom".to_string())]),
        Some(vec![
            ("natives-linux-custom".to_string(), art("https://example.test/c.jar", "c.jar")),
            ("natives-linux".to_string(), art("https://example.test/k.jar", "k.jar")),
        ]),
        None,
        "org.lwjgl:lwjgl:3.2.2",
    );
    let a = native_artifact(&lib, "linux").unwrap();
    assert_eq!(a.path, "c.jar");
}

#[test]
fn native_artifact_by_conventional_key() {
    let lib = native_lib(
        None,
        Some(vec![("natives-linux".to_string(), art("https://example.test/k.jar", "k.jar"))]),
        None,
        "org.lwjgl:lwjgl:3.2.2",
    );
    let a = native_artifact(&lib, "linux").unwrap();
    assert_eq!(a.path, "k.jar");
}

#[test]
fn native_artifact_by_path_or_name_mention() {
    let by_path = native_lib(
        None,
        None,
        Some(art("https://example.test/n.jar", "org/x/natives-linux/n.jar")),
        "org.x:n:1",
    );
    assert_eq!(native_artifact(&by_path, "linux").unwrap().path, "org/x/natives-linux/n.jar");
    let by_name = native_lib(
        None,
        None,
        Some(art("https://example.test/m.jar", "org/x/m.jar")),
        "org.x:m:1:natives-linux",
    );
    assert_eq!(native_artifact(&by_name, "linux").unwrap().path, "org/x/m.jar");
    let neither = native_lib(None, None, Some(art("https://example.test/p.jar", "org/x/p.jar")), "org.x:p:1");
    assert!(native_artifact(&neither, "linux").is_none());
}

#[test]
fn native_artifact_gated_by_rules() {
    // A rules-denied entry carries no native work on that OS: neither its
    // archive download nor its extraction is planned.
    let mut lib = native_lib(
        None,
        Some(vec![("natives-linux".to_string(), art("https://example.test/k.jar", "k.jar"))]),
        None,
        "org.lwjgl:lwjgl:3.2.2",
    );
    assert_eq!(native_artifact(&lib, "linux").unwrap().path, "k.jar");
    lib.rules = Some(vec![Rule {
        action: "allow".to_string(),
        os: Some(OsRule { name: Some("windows".to_string()) }),
    }]);
    assert!(native_artifact(&lib, "linux").is_none());
}

#[test]
fn native_cache_file_name() {
    assert_eq!(
        native_cache_name("org.lwjgl:lwjgl:3.2.2"),
        "org.lwjgl_lwjgl_3.2.2.zip"
    );
}

#[test]
fn natives_repair_only_when_empty_or_absent() {
    assert!(natives_need_repair(false, false));
    assert!(natives_need_repair(true, false));
    assert!(!natives_need_repair(true, true));
}

#[test]
fn extract_options_accessor() {
    let mut lib = native_lib(None, None, None, "a:b:1");
    assert!(lib.get_extract().is_none());
    lib.extract = Some(Extract { exclude: vec!["META-INF/".to_string()] });
    assert_eq!(lib.get_extract().unwrap().exclude, vec!["META-INF/".to_string()]);
}
