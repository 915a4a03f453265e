use liquidlauncher::app::marketplace::install::{
    addon_jars, installation_dir, installed_revision, parse_u32, partial_dir_name,
    restorations, retired_dir_name, retirements, single_jar, Installation,
};
use liquidlauncher::app::marketplace::staging::{copying_name, staged_jar_name};
use liquidlauncher::utils::extract::{entry_is_dir, sanitize_file_path};
use liquidlauncher::utils::hosts::{flagged_entries, hosts_message, hosts_path};
use liquidlauncher::utils::maven::get_maven_artifact_path;

#[test]
fn flags_hosts_entries_that_block_the_servers() {
    let content = "# 127.0.0.1 sessionserver.mojang.com\r\n127.0.0.1 localhost\r\n0.0.0.0\tsessionserver.mojang.com # blocked\n  127.0.0.1   api.liquidbounce.net\n\n0.0.0.0 example.org\n";
    assert_eq!(
        flagged_entries(content),
        [
            "0.0.0.0\tsessionserver.mojang.com # blocked",
            "  127.0.0.1   api.liquidbounce.net"
        ]
    );
    assert!(flagged_entries("").is_empty());
    assert!(hosts_message(&vec![], "C:\\hosts").is_none());
    assert_eq!(
        hosts_message(&vec!["a".to_owned(), "b".to_owned()], "C:\\hosts").unwrap(),
        "The hosts file has been modified to block the Minecraft authentication server.\n\nPlease remove the following entries from the hosts file:\na\nb\n\nThe file is located at:\nC:\\hosts"
    );
    assert_eq!(hosts_path(None), "C:\\Windows\\System32\\drivers\\etc\\hosts");
    assert_eq!(hosts_path(Some("D:".to_owned())), "D:\\Windows\\System32\\drivers\\etc\\hosts");
}

#[test]
fn reads_revisions_from_directory_names() {
    assert_eq!(parse_u32("4251"), Some(4251));
    assert_eq!(parse_u32("+7"), Some(7));
    assert_eq!(parse_u32("4331.part"), None);
    assert_eq!(parse_u32("latest"), None);
    assert_eq!(parse_u32(""), None);
    assert_eq!(parse_u32("4294967295"), Some(u32::MAX));
    assert_eq!(parse_u32("4294967296"), None);
    let entries = vec![
        ("4251".to_owned(), true),
        (".4331.part".to_owned(), true),
        ("latest".to_owned(), true),
        ("9999".to_owned(), false),
        ("731".to_owned(), true),
    ];
    assert_eq!(installed_revision(&entries), Some(4251));
    assert_eq!(installed_revision(&vec![]), None);
    assert_eq!(partial_dir_name(731), ".731.part");
    assert_eq!(retired_dir_name(4251), ".4251.old");
    assert_eq!(single_jar(vec!["extras.jar".to_owned()], "dir"), Ok("extras.jar".to_owned()));
    assert_eq!(
        single_jar(vec![], "dir"),
        Err("Expected exactly one jar in dir, found 0".to_owned())
    );
}

#[test]
fn finds_maven_paths() {
    assert_eq!(
        get_maven_artifact_path(&"net.fabricmc:fabric-loader:0.19.3".to_owned()).unwrap(),
        "net/fabricmc/fabric-loader/0.19.3/fabric-loader-0.19.3.jar"
    );
    assert!(get_maven_artifact_path(&"broken".to_owned()).is_err());
}

#[test]
fn finds_where_a_revision_keeps_its_files() {
    let entries = vec![
        ("docs".to_owned(), false),
        ("Extras".to_owned(), true),
        ("More".to_owned(), true),
    ];
    assert_eq!(installation_dir(false, true, &entries), None);
    assert_eq!(installation_dir(true, true, &entries), Some(Installation::Here));
    assert_eq!(
        installation_dir(true, false, &entries),
        Some(Installation::Below("Extras".to_owned()))
    );
    assert_eq!(installation_dir(true, false, &vec![("docs".to_owned(), false)]), None);
}

#[test]
fn takes_the_jars_by_their_extension() {
    let names = vec![
        "extras.jar".to_owned(),
        ".jar".to_owned(),
        "README.md".to_owned(),
        "..jar".to_owned(),
        "extras.jar.bak".to_owned(),
    ];
    assert_eq!(addon_jars(&names), ["extras.jar", "..jar"]);
    assert_eq!(
        single_jar(addon_jars(&names), "items/781/731"),
        Err("Expected exactly one jar in items/781/731, found 2".to_owned())
    );
}

#[test]
fn stages_an_addon_jar_under_the_name_the_client_uses() {
    assert_eq!(staged_jar_name(781, 731), "liquidbounce-addon-781-731.jar");
    assert_eq!(copying_name("liquidbounce-addon-781-731.jar"), "liquidbounce-addon-781-731.jar.part");
}

#[test]
fn unpacks_archive_entries_only_below_the_target() {
    let steps = sanitize_file_path("../..\\evil/./ok.txt");
    assert_eq!(steps.len(), 5);
    for step in &steps {
        assert!(!step.contains('/') && !step.contains('\\') && step != "." && step != "..");
    }
    assert_eq!(steps[2], "evil");
    assert_eq!(steps[4], "ok.txt");
    assert_eq!(sanitize_file_path("jre/bin/java"), ["jre", "bin", "java"]);
    assert_eq!(sanitize_file_path("a:b*c").len(), 1);
    assert_eq!(sanitize_file_path("a:b*c")[0], "abc");

    assert!(entry_is_dir("jre/bin/"));
    assert!(!entry_is_dir("jre/bin/java"));
    assert!(!entry_is_dir(""));
}

#[test]
fn puts_retired_revisions_back_where_they_were() {
    let retired = retirements(&vec![12, 4251]);
    assert_eq!(
        retired,
        [
            ("12".to_owned(), ".12.old".to_owned()),
            ("4251".to_owned(), ".4251.old".to_owned()),
        ]
    );
    assert_eq!(
        restorations(&retired),
        [
            (".12.old".to_owned(), "12".to_owned()),
            (".4251.old".to_owned(), "4251".to_owned()),
        ]
    );
    // A retired revision never reads as installed.
    assert_eq!(parse_u32(".4251.old"), None);
}

#[test]
fn install_installed_revision_is_the_highest_numeric_directory() {
    // A missing item directory lists nothing, as does an empty one.
    assert_eq!(installed_revision(&vec![]), None);
    let entry = |name: &str, is_dir: bool| (name.to_owned(), is_dir);
    let entries = vec![
        entry("12", true),
        entry("4251", true),
        entry("4331.part", true),
        entry("latest", true),
        entry("9999", false),
        entry("731.zip", false),
    ];
    assert_eq!(installed_revision(&entries), Some(4251));
}

#[test]
fn marketplace_installed_revision_is_the_highest_numeric_directory() {
    assert_eq!(installed_revision(&vec![]), None);
    let entry = |name: &str, is_dir: bool| (name.to_owned(), is_dir);
    let entries = vec![
        entry("12", true),
        entry("4251", true),
        entry("4331.part", true),
        entry("latest", true),
        entry("9999", false),
        entry("731.zip", false),
    ];
    assert_eq!(installed_revision(&entries), Some(4251));
}

#[test]
fn keeps_plain_names_and_only_removes_characters_from_others() {
    assert_eq!(
        sanitize_file_path("mods/sodium-fabric_0.5.11.jar"),
        ["mods", "sodium-fabric_0.5.11.jar"]
    );
    assert_eq!(sanitize_file_path("a\u{1}b\u{85}c?d")[0], "abcd");
    let long = "x".repeat(300);
    let cut = sanitize_file_path(&long);
    assert_eq!(cut[0], "x".repeat(255));
}
