use std::cmp::Ordering;
use rcraft::errors::LauncherError;
use rcraft::library_manager::{library_fetch_target, plan_library_fetches, LibraryManager};
use rcraft::models::{Library, LibraryArtifact, LibraryDownloads, Settings, Theme};
use rcraft::versions::{
    compare_versions, get_required_java_version, is_at_least_1_14, is_at_least_1_8, parse_version,
};

#[test]
fn parse_version_components() {
    assert_eq!(parse_version("1.19.4"), (1, 19, 4));
    assert_eq!(parse_version("1.17"), (1, 17, 0));
    assert_eq!(parse_version("2"), (2, 0, 0));
    assert_eq!(parse_version(""), (0, 0, 0));
    assert_eq!(parse_version("1.x.4"), (1, 0, 4));
    assert_eq!(parse_version("1..4"), (1, 0, 4));
    assert_eq!(parse_version("1.19.4.9"), (1, 19, 4));
    assert_eq!(parse_version("99999999999999999999.1.2"), (0, 1, 2));
}

#[test]
fn version_ordering() {
    assert_eq!(compare_versions("1.8", "1.12.2"), Ordering::Less);
    assert_eq!(compare_versions("1.20.1", "1.20.1"), Ordering::Equal);
    assert_eq!(compare_versions("1.20.2", "1.20.1"), Ordering::Greater);
    assert_eq!(compare_versions("2.0", "1.99.99"), Ordering::Greater);
}

#[test]
fn minimum_version_gates() {
    assert!(is_at_least_1_8("1.8"));
    assert!(is_at_least_1_8("1.20.1"));
    assert!(!is_at_least_1_8("1.7.10"));
    assert!(is_at_least_1_8("fabric-loader-0.18.4-1.19.4"));
    assert!(!is_at_least_1_8("fabric-loader-0.18.4-1.7.10"));
    assert!(is_at_least_1_14("1.14"));
    assert!(!is_at_least_1_14("1.13.2"));
}

#[test]
fn required_java_heuristic() {
    assert_eq!(get_required_java_version(None, "1.7.10"), 8);
    assert_eq!(get_required_java_version(None, "1.17"), 16);
    assert_eq!(get_required_java_version(None, "1.18.2"), 17);
    assert_eq!(get_required_java_version(None, "1.20.5"), 21);
    assert_eq!(get_required_java_version(None, "1.21"), 21);
    assert_eq!(get_required_java_version(None, "1.20.4"), 17);
    // A loader identifier is stripped to its game version first.
    assert_eq!(get_required_java_version(None, "fabric-loader-0.14.21-1.19.4"), 17);
}

#[test]
fn required_java_explicit_field_wins() {
    // The heuristic never overrides an explicit manifest requirement.
    assert_eq!(get_required_java_version(Some(11), "1.20.5"), 11);
    assert_eq!(get_required_java_version(Some(8), "1.18.2"), 8);
}

fn plain_lib(name: &str) -> Library {
    Library { name: name.to_string(), downloads: None, natives: None, rules: None, extract: None }
}

#[test]
fn library_manager_layout() {
    // The repository lives beside the versions directory; a bare relative
    // name puts it beside as a bare `libraries`.
    let _m = LibraryManager::new("/home/player/.minecraft/versions".to_string());
    let _bare = LibraryManager::new("versions".to_string());
}

#[test]
fn fetch_target_explicit_wins_over_maven() {
    let explicit = Library {
        name: "com.example:a:1".to_string(),
        downloads: Some(LibraryDownloads {
            artifact: Some(LibraryArtifact {
                url: "https://example.test/a.jar".to_string(),
                path: "custom/a.jar".to_string(),
            }),
            classifiers: None,
        }),
        natives: None,
        rules: None,
        extract: None,
    };
    let t = library_fetch_target(&explicit, "https://libraries.minecraft.net").unwrap();
    assert_eq!(t, ("https://example.test/a.jar".to_string(), "custom/a.jar".to_string()));
}

#[test]
fn fetch_target_derives_maven_path() {
    let t = library_fetch_target(&plain_lib("com.example:a:1.0"), "https://libraries.minecraft.net")
        .unwrap();
    assert_eq!(
        t,
        (
            "https://libraries.minecraft.net/com/example/a/1.0/a-1.0.jar".to_string(),
            "com/example/a/1.0/a-1.0.jar".to_string()
        )
    );
}

#[test]
fn fetch_target_empty_url_falls_back() {
    let empty_url = Library {
        name: "com.example:a:1.0".to_string(),
        downloads: Some(LibraryDownloads {
            artifact: Some(LibraryArtifact { url: String::new(), path: "custom/a.jar".to_string() }),
            classifiers: None,
        }),
        natives: None,
        rules: None,
        extract: None,
    };
    let t = library_fetch_target(&empty_url, "https://libraries.minecraft.net").unwrap();
    assert_eq!(t.1, "com/example/a/1.0/a-1.0.jar");
}

#[test]
fn fetch_plan_skips_present_and_unnamed() {
    let libs = vec![
        plain_lib("com.example:have:1.0"),
        plain_lib("com.example:need:1.0"),
        plain_lib("junk"),
    ];
    let present = vec!["com/example/have/1.0/have-1.0.jar".to_string()];
    let plan = plan_library_fetches(&libs, "linux", "https://libraries.minecraft.net", &present);
    assert_eq!(plan.len(), 1);
    assert_eq!(plan[0].1, "com/example/need/1.0/need-1.0.jar");
}

#[test]
fn error_kinds_have_names() {
    assert_eq!(LauncherError::NotFound.kind_name(), "not_found");
    assert_eq!(LauncherError::Malformed.kind_name(), "malformed");
    assert_eq!(LauncherError::NetworkFailure.kind_name(), "network_failure");
    assert_eq!(LauncherError::JavaMissing(17).kind_name(), "java_missing");
    assert_eq!(LauncherError::ExtractionFailure.kind_name(), "extraction_failure");
    assert_eq!(LauncherError::SubprocessFailure("e".to_string()).kind_name(), "subprocess_failure");
}

#[test]
fn theme_and_settings_defaults() {
    assert_eq!(Theme::default(), Theme::System);
    assert_eq!(Theme::Dark.label(), "Dark");
    assert_eq!(Theme::Transparent.label(), "Transparent");
    let s = Settings::default();
    assert_eq!(s.theme, Theme::System);
    assert!(!s.hide_logs);
    assert!(!s.sidebar_collapsed);
    assert!(!s.hide_mods_button);
}
