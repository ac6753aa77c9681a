use rcraft::assets::{asset_object_path, asset_object_url, plan_assets, should_report, virtual_asset_path};
use rcraft::classpath::derive_maven_rel_path;
use rcraft::errors::LauncherError;
use rcraft::java::{InstallStage, JavaManager, RuntimeInstall, runtime_archive_is_zip, runtime_release_url};
use rcraft::launcher::{
    base_version_id, check_launch_version, client_jar_url, launch_args, launch_step, LaunchEvent,
    LaunchState, main_class_or_default, MinecraftLauncher, natives_dir_path, version_json_path,
};
use rcraft::loader::{discover_installed_version, installer_args, installer_outcome};
use rcraft::models::{
    AssetIndexFile, AssetObject, DownloadFile, Library, LibraryArtifact, LibraryDownloads,
    MinecraftVersion, OsRule, Rule, VersionDownloads, VersionEntry, VersionJson, VersionManifest,
};
use rcraft::resolver::{ChainWalker, resolved_asset_index, resolved_java_major, resolved_main_class};
use rcraft::rules::is_library_allowed;

fn lib(name: &str, artifact: Option<(&str, &str)>, rules: Option<Vec<Rule>>) -> Library {
    Library {
        name: name.to_string(),
        downloads: artifact.map(|(url, path)| LibraryDownloads {
            artifact: Some(LibraryArtifact { url: url.to_string(), path: path.to_string() }),
            classifiers: None,
        }),
        natives: None,
        rules,
        extract: None,
    }
}

fn descriptor(
    inherits: Option<&str>,
    libraries: Vec<Library>,
    main_class: Option<&str>,
    downloads: Option<VersionDownloads>,
) -> VersionJson {
    VersionJson {
        inherits_from: inherits.map(|s| s.to_string()),
        java_version: None,
        libraries,
        main_class: main_class.map(|s| s.to_string()),
        asset_index: None,
        downloads,
    }
}

fn launcher() -> MinecraftLauncher {
    MinecraftLauncher::new("/home/player")
}

#[test]
fn rule_override_is_last_match_wins() {
    // A blanket deny followed by an allow scoped to the current OS: the
    // later rule overrides, so the library is allowed there and only there.
    let l = lib(
        "org.lwjgl:lwjgl:3.2.2",
        Some(("https://example.test/l.jar", "org/lwjgl/lwjgl/3.2.2/lwjgl-3.2.2.jar")),
        Some(vec![
            Rule { action: "deny".to_string(), os: None },
            Rule {
                action: "allow".to_string(),
                os: Some(OsRule { name: Some("linux".to_string()) }),
            },
        ]),
    );
    assert!(is_library_allowed(&l, "linux"));
    // First-match semantics would have denied on linux as well; the
    // distinguishing case is the other OS, where only the blanket deny
    // matches.
    assert!(!is_library_allowed(&l, "osx"));
}

#[test]
fn rules_absent_means_allowed() {
    let l = lib("a:b:1", None, None);
    assert!(is_library_allowed(&l, "linux"));
}

#[test]
fn rules_deny_only() {
    let l = lib(
        "a:b:1",
        None,
        Some(vec![Rule { action: "deny".to_string(), os: None }]),
    );
    assert!(!is_library_allowed(&l, "linux"));
}

#[test]
fn classpath_end_to_end_allowed_then_jar() {
    // One allowed library with explicit artifact info, one denied library
    // (OS mismatch), a client download URL: the classpath is exactly the
    // allowed library followed by the base archive, in that order.
    let allowed = lib(
        "com.example:ok:1.0",
        Some(("https://example.test/ok.jar", "com/example/ok/1.0/ok-1.0.jar")),
        None,
    );
    let denied = lib(
        "com.example:no:1.0",
        Some(("https://example.test/no.jar", "com/example/no/1.0/no-1.0.jar")),
        Some(vec![Rule {
            action: "allow".to_string(),
            os: Some(OsRule { name: Some("windows".to_string()) }),
        }]),
    );
    let chain = vec![VersionEntry {
        id: "1.19.4".to_string(),
        descriptor: descriptor(
            None,
            vec![allowed, denied],
            Some("net.minecraft.client.main.Main"),
            Some(VersionDownloads {
                client: Some(DownloadFile {
                    sha1: "0".to_string(),
                    size: 1,
                    url: "https://example.test/client.jar".to_string(),
                }),
                server: None,
            }),
        ),
    }];
    let l = launcher();
    let cp = l.build_classpath(&chain, "linux", &vec![]).unwrap();
    assert_eq!(
        cp,
        "/home/player/.minecraft/libraries/com/example/ok/1.0/ok-1.0.jar:\
         /home/player/.minecraft/versions/1.19.4/1.19.4.jar"
    );
    let jar_url = client_jar_url(&chain[0].descriptor.downloads, "1.19.4");
    assert_eq!(jar_url, "https://example.test/client.jar");
}

#[test]
fn classpath_deduplicates_by_group_and_artifact() {
    // The same (group, artifact) appears in the child and, in another
    // version, in the parent: the child's entry wins and appears once.
    let child_lib = lib(
        "com.example:dup:2.0",
        Some(("https://example.test/d2.jar", "com/example/dup/2.0/dup-2.0.jar")),
        None,
    );
    let parent_lib = lib(
        "com.example:dup:1.0",
        Some(("https://example.test/d1.jar", "com/example/dup/1.0/dup-1.0.jar")),
        None,
    );
    let other = lib(
        "com.example:other:1.0",
        Some(("https://example.test/o.jar", "com/example/other/1.0/other-1.0.jar")),
        None,
    );
    let chain = vec![
        VersionEntry {
            id: "fabric-loader-0.14.21-1.19.4".to_string(),
            descriptor: descriptor(Some("1.19.4"), vec![child_lib], None, None),
        },
        VersionEntry {
            id: "1.19.4".to_string(),
            descriptor: descriptor(None, vec![parent_lib, other], None, None),
        },
    ];
    let l = launcher();
    let cp = l.build_classpath(&chain, "linux", &vec![]).unwrap();
    let root = "/home/player/.minecraft";
    assert_eq!(
        cp,
        format!(
            "{root}/libraries/com/example/dup/2.0/dup-2.0.jar:\
             {root}/libraries/com/example/other/1.0/other-1.0.jar:\
             {root}/versions/1.19.4/1.19.4.jar"
        )
    );
}

#[test]
fn classpath_rebuild_is_identical() {
    let entry = VersionEntry {
        id: "1.19.4".to_string(),
        descriptor: descriptor(
            None,
            vec![lib(
                "com.example:ok:1.0",
                Some(("https://example.test/ok.jar", "com/example/ok/1.0/ok-1.0.jar")),
                None,
            )],
            None,
            None,
        ),
    };
    let chain = vec![entry];
    let l = launcher();
    let first = l.build_classpath(&chain, "linux", &vec![]).unwrap();
    let second = l.build_classpath(&chain, "linux", &vec![]).unwrap();
    assert_eq!(first, second);
}

#[test]
fn classpath_maven_fallback_requires_local_file() {
    // A library without explicit downloads resolves through the derived
    // Maven path, and only if that file exists locally.
    let l = launcher();
    let fallback = lib("com.example:derived:1.2", None, None);
    let chain = vec![VersionEntry {
        id: "1.19.4".to_string(),
        descriptor: descriptor(None, vec![fallback], None, None),
    }];
    let without = l.build_classpath(&chain, "linux", &vec![]).unwrap();
    let root = "/home/player/.minecraft";
    assert_eq!(without, format!("{root}/versions/1.19.4/1.19.4.jar"));
    let present = vec!["com/example/derived/1.2/derived-1.2.jar".to_string()];
    let with = l.build_classpath(&chain, "linux", &present).unwrap();
    assert_eq!(
        with,
        format!(
            "{root}/libraries/com/example/derived/1.2/derived-1.2.jar:\
             {root}/versions/1.19.4/1.19.4.jar"
        )
    );
}

#[test]
fn classpath_empty_chain_is_not_found() {
    let l = launcher();
    assert!(matches!(
        l.build_classpath(&vec![], "linux", &vec![]),
        Err(LauncherError::NotFound)
    ));
}

#[test]
fn maven_path_derivation() {
    assert_eq!(
        derive_maven_rel_path("com.google.guava:guava:21.0").unwrap(),
        "com/google/guava/guava/21.0/guava-21.0.jar"
    );
    assert_eq!(
        derive_maven_rel_path("org.lwjgl:lwjgl:3.2.2:natives-linux").unwrap(),
        "org/lwjgl/lwjgl/3.2.2/lwjgl-3.2.2-natives-linux.jar"
    );
    assert_eq!(derive_maven_rel_path("notacoordinate"), None);
    assert_eq!(derive_maven_rel_path("only:one"), None);
}

#[test]
fn version_manifest_release_filter() {
    let l = launcher();
    let mk = |id: &str, t: &str| MinecraftVersion {
        id: id.to_string(),
        version_type: t.to_string(),
        url: "https://example.test/v.json".to_string(),
        time: "t".to_string(),
        release_time: None,
    };
    let manifest = VersionManifest {
        versions: vec![mk("1.20", "release"), mk("23w13a", "snapshot"), mk("1.19.4", "release")],
    };
    let releases = l.get_available_versions(manifest);
    let ids: Vec<&str> = releases.iter().map(|v| v.id.as_str()).collect();
    assert_eq!(ids, vec!["1.20", "1.19.4"]);
}

#[test]
fn resolver_first_found_wins() {
    let child = VersionEntry {
        id: "child".to_string(),
        descriptor: descriptor(Some("parent"), vec![], None, None),
    };
    let mut parent_desc = descriptor(None, vec![], Some("com.example.Parent"), None);
    parent_desc.java_version = Some(rcraft::models::JavaVersion { major_version: 17 });
    let parent = VersionEntry { id: "parent".to_string(), descriptor: parent_desc };
    let chain = vec![child, parent];
    assert_eq!(resolved_main_class(&chain).unwrap(), "com.example.Parent");
    assert_eq!(resolved_java_major(&chain), Some(17));
    assert!(resolved_asset_index(&chain).is_none());
}

#[test]
fn resolver_child_value_beats_parent() {
    let child = VersionEntry {
        id: "child".to_string(),
        descriptor: descriptor(Some("parent"), vec![], Some("com.example.Child"), None),
    };
    let parent = VersionEntry {
        id: "parent".to_string(),
        descriptor: descriptor(None, vec![], Some("com.example.Parent"), None),
    };
    let chain = vec![child, parent];
    assert_eq!(resolved_main_class(&chain).unwrap(), "com.example.Child");
}

#[test]
fn missing_descriptor_fatal_only_for_start() {
    // A missing starting version fails the walk; a missing ancestor only
    // ends the chain early.
    assert!(matches!(
        rcraft::resolver::on_missing_descriptor(0),
        Err(LauncherError::NotFound)
    ));
    assert!(rcraft::resolver::on_missing_descriptor(1).is_ok());
    assert!(rcraft::resolver::on_missing_descriptor(3).is_ok());
}

#[test]
fn chain_walker_rejects_cycle() {
    let mut w = ChainWalker::new();
    assert!(w.visit("a").is_ok());
    assert!(w.visit("b").is_ok());
    assert!(matches!(w.visit("a"), Err(LauncherError::Malformed)));
}

#[test]
fn asset_plan_idempotent_on_full_cache() {
    // Against a fully populated cache a pass plans nothing, so a second run
    // performs zero network requests.
    let index = AssetIndexFile {
        is_virtual: true,
        map_to_resources: false,
        objects: vec![
            (
                "minecraft/sounds/a.ogg".to_string(),
                AssetObject { hash: "aabbcc".to_string(), size: 3 },
            ),
            (
                "minecraft/lang/en.json".to_string(),
                AssetObject { hash: "ddeeff".to_string(), size: 5 },
            ),
        ],
    };
    let hashes = vec!["aabbcc".to_string(), "ddeeff".to_string()];
    let names = vec!["minecraft/sounds/a.ogg".to_string(), "minecraft/lang/en.json".to_string()];
    let plan = plan_assets(&index, &hashes, &names);
    assert!(plan.downloads.is_empty());
    assert!(plan.virtual_copies.is_empty());
}

#[test]
fn asset_plan_downloads_each_hash_once() {
    // Two logical names share one hash: the object is fetched once.
    let index = AssetIndexFile {
        is_virtual: false,
        map_to_resources: false,
        objects: vec![
            ("icons/a.png".to_string(), AssetObject { hash: "aa11".to_string(), size: 1 }),
            ("icons/b.png".to_string(), AssetObject { hash: "aa11".to_string(), size: 1 }),
            ("icons/c.png".to_string(), AssetObject { hash: "bb22".to_string(), size: 1 }),
        ],
    };
    let plan = plan_assets(&index, &vec![], &vec![]);
    assert_eq!(plan.downloads, vec!["aa11".to_string(), "bb22".to_string()]);
    assert!(plan.virtual_copies.is_empty());
}

#[test]
fn asset_plan_virtual_copies_missing_only() {
    let index = AssetIndexFile {
        is_virtual: true,
        map_to_resources: false,
        objects: vec![
            ("a".to_string(), AssetObject { hash: "aa11".to_string(), size: 1 }),
            ("b".to_string(), AssetObject { hash: "bb22".to_string(), size: 1 }),
        ],
    };
    let plan = plan_assets(&index, &vec!["aa11".to_string(), "bb22".to_string()], &vec!["a".to_string()]);
    assert!(plan.downloads.is_empty());
    assert_eq!(plan.virtual_copies, vec![("b".to_string(), "bb22".to_string())]);
}

#[test]
fn asset_paths_are_content_addressed() {
    assert_eq!(asset_object_path("abcdef"), "objects/ab/abcdef");
    assert_eq!(
        asset_object_url("https://resources.download.minecraft.net", "abcdef"),
        "https://resources.download.minecraft.net/ab/abcdef"
    );
    assert_eq!(virtual_asset_path("minecraft/sounds/a.ogg"), "virtual/legacy/minecraft/sounds/a.ogg");
}

#[test]
fn progress_report_cadence() {
    assert!(should_report(0, 120));
    assert!(should_report(50, 120));
    assert!(!should_report(51, 120));
    assert!(should_report(100, 120));
    assert!(should_report(120, 120));
}

#[test]
fn java_find_reports_missing_until_marked() {
    let jm = JavaManager::new("/home/player/.minecraft/runtimes".to_string());
    match jm.find_java(Some(17)) {
        Err(LauncherError::JavaMissing(17)) => {},
        other => panic!("expected JavaMissing(17), got {:?}", other.map(|_| ())),
    }
    assert!(matches!(jm.find_java(None), Err(LauncherError::NotFound)));
}

#[test]
fn java_interrupted_install_stays_missing() {
    // Fail the install during extraction, before the atomic rename: the
    // runtime set never gains the major and find_java still reports it
    // missing.
    let mut jm = JavaManager::new("/rt".to_string());
    let mut inst = RuntimeInstall::begin(17);
    inst.step(&mut jm, true); // release resolved
    inst.step(&mut jm, true); // archive downloaded
    inst.step(&mut jm, false); // extraction dies
    assert!(matches!(jm.find_java(Some(17)), Err(LauncherError::JavaMissing(17))));
}

#[test]
fn java_completed_install_is_found() {
    let mut jm = JavaManager::new("/rt".to_string());
    let mut inst = RuntimeInstall::begin(17);
    inst.step(&mut jm, true);
    inst.step(&mut jm, true);
    inst.step(&mut jm, true);
    inst.step(&mut jm, true); // placement: the atomic rename
    assert_eq!(jm.find_java(Some(17)).unwrap(), "/rt/java-17/bin/java");
}

#[test]
fn java_failure_is_absorbing() {
    let mut jm = JavaManager::new("/rt".to_string());
    let mut inst = RuntimeInstall::begin(8);
    inst.step(&mut jm, false);
    inst.step(&mut jm, true);
    inst.step(&mut jm, true);
    inst.step(&mut jm, true);
    inst.step(&mut jm, true);
    assert!(matches!(jm.find_java(Some(8)), Err(LauncherError::JavaMissing(8))));
}

#[test]
fn java_archive_kind_by_suffix() {
    assert!(runtime_archive_is_zip("https://example.test/jdk-17.zip"));
    assert!(!runtime_archive_is_zip("https://example.test/jdk-17.tar.gz"));
}

#[test]
fn java_release_query_url() {
    assert_eq!(
        runtime_release_url("https://api.adoptium.net", 17, "linux"),
        "https://api.adoptium.net/v3/assets/feature_releases/17/ga?architecture=x64&heap_size=normal&image_type=jdk&jvm_impl=hotspot&os=linux"
    );
}

#[test]
fn loader_installer_arguments() {
    let args = installer_args("/home/player/.minecraft", "1.19.4");
    assert_eq!(
        args,
        vec!["client", "-dir", "/home/player/.minecraft", "-mcversion", "1.19.4", "-noprofile"]
    );
}

#[test]
fn loader_outcome_carries_stderr() {
    assert!(installer_outcome(true, String::new()).is_ok());
    match installer_outcome(false, "boom".to_string()) {
        Err(LauncherError::SubprocessFailure(s)) => assert_eq!(s, "boom"),
        _ => panic!("expected SubprocessFailure"),
    }
}

#[test]
fn loader_discovery_prefers_newest_match() {
    let entries = vec![
        ("fabric-loader-0.14.0-1.19.4".to_string(), 100u64),
        ("fabric-loader-0.15.0-1.19.4".to_string(), 300u64),
        ("fabric-loader-0.15.0-1.20".to_string(), 400u64), // wrong version
        ("1.19.4".to_string(), 500u64),                    // no loader marker
        ("fabric-loader-0.14.5-1.19.4".to_string(), 200u64),
    ];
    let found = discover_installed_version(&entries, "1.19.4").unwrap();
    assert_eq!(found, "fabric-loader-0.15.0-1.19.4");
}

#[test]
fn loader_discovery_first_of_equal_times_wins() {
    let entries = vec![
        ("fabric-loader-a-1.19.4".to_string(), 100u64),
        ("fabric-loader-b-1.19.4".to_string(), 100u64),
    ];
    assert_eq!(discover_installed_version(&entries, "1.19.4").unwrap(), "fabric-loader-a-1.19.4");
}

#[test]
fn loader_discovery_none_is_not_found() {
    let entries = vec![("1.19.4".to_string(), 100u64)];
    assert!(matches!(
        discover_installed_version(&entries, "1.19.4"),
        Err(LauncherError::NotFound)
    ));
}

#[test]
fn launch_arguments_in_required_order() {
    let idx = "3".to_string();
    let args = launch_args(
        4096,
        "/v/1.19.4/natives",
        "a.jar:b.jar",
        "net.minecraft.client.main.Main",
        "steve",
        "1.19.4",
        "/mc",
        "/mc/assets",
        Some(&idx),
    );
    assert_eq!(
        args,
        vec![
            "-Xmx4096M",
            "-Xms2048M",
            "-Djava.library.path=/v/1.19.4/natives",
            "-cp",
            "a.jar:b.jar",
            "net.minecraft.client.main.Main",
            "--username",
            "steve",
            "--version",
            "1.19.4",
            "--gameDir",
            "/mc",
            "--assetsDir",
            "/mc/assets",
            "--assetIndex",
            "3",
            "--accessToken",
            "0",
            "--userProperties",
            "{}",
        ]
    );
}

#[test]
fn launch_arguments_without_asset_index() {
    let args = launch_args(1024, "/n", "cp", "Main", "u", "1.9", "/g", "/a", None);
    assert_eq!(
        args,
        vec![
            "-Xmx1024M",
            "-Xms512M",
            "-Djava.library.path=/n",
            "-cp",
            "cp",
            "Main",
            "--username",
            "u",
            "--version",
            "1.9",
            "--gameDir",
            "/g",
            "--assetsDir",
            "/a",
            "--accessToken",
            "0",
            "--userProperties",
            "{}",
        ]
    );
}

#[test]
fn launch_gate_rejects_old_versions() {
    assert!(check_launch_version("1.19.4").is_ok());
    assert!(check_launch_version("fabric-loader-0.14.21-1.19.4").is_ok());
    assert!(matches!(check_launch_version("1.7.10"), Err(LauncherError::Malformed)));
}

#[test]
fn launch_state_machine_happy_path() {
    let mut s = LaunchState::Resolving;
    s = launch_step(s, LaunchEvent::Resolved);
    assert_eq!(s, LaunchState::AcquiringJava);
    s = launch_step(s, LaunchEvent::JavaFound);
    assert_eq!(s, LaunchState::Preparing);
    s = launch_step(s, LaunchEvent::Prepared);
    assert_eq!(s, LaunchState::Composing);
    s = launch_step(s, LaunchEvent::Composed);
    assert_eq!(s, LaunchState::Spawned);
    s = launch_step(s, LaunchEvent::ProcessStarted);
    assert_eq!(s, LaunchState::Running);
    s = launch_step(s, LaunchEvent::ProcessExited(0));
    assert_eq!(s, LaunchState::Exited(0));
}

#[test]
fn launch_state_machine_java_missing_needs_approval() {
    let s = launch_step(LaunchState::AcquiringJava, LaunchEvent::JavaAbsent(17));
    assert_eq!(s, LaunchState::JavaMissing(17));
    // The only way onward is explicit approval; a denial fails the attempt,
    // and no other event auto-resolves the missing runtime.
    assert_eq!(
        launch_step(s, LaunchEvent::DownloadApproved),
        LaunchState::DownloadingJava(17)
    );
    assert_eq!(launch_step(s, LaunchEvent::DownloadDenied), LaunchState::Failed);
    assert_eq!(launch_step(s, LaunchEvent::JavaInstalled), LaunchState::Failed);
    assert_eq!(
        launch_step(LaunchState::DownloadingJava(17), LaunchEvent::JavaInstalled),
        LaunchState::AcquiringJava
    );
}

#[test]
fn launch_paths_and_defaults() {
    assert_eq!(version_json_path("/mc/versions", "1.19.4"), "/mc/versions/1.19.4/1.19.4.json");
    assert_eq!(natives_dir_path("/mc/versions", "1.19.4"), "/mc/versions/1.19.4/natives");
    assert_eq!(base_version_id("fabric-x", &Some("1.19.4".to_string())), "1.19.4");
    assert_eq!(base_version_id("1.19.4", &None), "1.19.4");
    assert_eq!(main_class_or_default(None), "net.minecraft.client.main.Main");
    let m = "com.example.Main".to_string();
    assert_eq!(main_class_or_default(Some(&m)), "com.example.Main");
    let jar_url = client_jar_url(&None, "1.5.2");
    assert_eq!(
        jar_url,
        "https://s3.amazonaws.com/Minecraft.Download/versions/1.5.2/1.5.2.jar"
    );
}
