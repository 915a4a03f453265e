use liquidlauncher::app::client_api::{builds_endpoint, Client, EndpointOutcome, Lookup};
use liquidlauncher::app::modrinth::{custom_mods, mod_jars, loader_name, newer, resolve, ModrinthMod, Project, Version};
use liquidlauncher::app::client_api::ModSource;
use liquidlauncher::app::updater::{failure_message, updating_label, UpdateDownload};
use liquidlauncher::app::webview::{
    download_attempt, download_view_wait, is_completion_redirect, login_wait, Wait,
};
use liquidlauncher::minecraft::progress::ProgressUpdate;
use liquidlauncher::utils::checksum::{matches_expected, requires_download, sha1_hex};

#[test]
fn looks_up_the_first_host_that_answers() {
    let mut lookup = Lookup::new();
    let first = lookup.next_endpoint().unwrap();
    assert_eq!(first, "https://api.liquidbounce.net");
    assert!(lookup.record(EndpointOutcome::Unreachable("timed out".to_owned())).is_none());
    let second = lookup.next_endpoint().unwrap();
    assert_eq!(second, "https://api.ccbluex.net");
    assert!(lookup.record(EndpointOutcome::Refused("502 Bad Gateway".to_owned())).is_none());
    assert_eq!(lookup.next_endpoint(), Some("http://nossl.api.liquidbounce.net"));
    let client = lookup.record(EndpointOutcome::Reached).unwrap();
    assert_eq!(client.url(), "http://nossl.api.liquidbounce.net");
    assert!(!client.is_secure());

    let mut failing = Lookup::new();
    while failing.next_endpoint().is_some() {
        assert!(failing.record(EndpointOutcome::Unreachable("down".to_owned())).is_none());
    }
    assert_eq!(
        failing.technical_information(),
        "Failed to connect to API endpoint 'https://api.liquidbounce.net': down\n\nFailed to connect to API endpoint 'https://api.ccbluex.net': down\n\nFailed to connect to API endpoint 'http://nossl.api.liquidbounce.net': down\n"
    );
}

#[test]
fn names_the_endpoints_of_a_host() {
    let client = Client::new("https://api.liquidbounce.net");
    assert!(client.is_secure());
    assert_eq!(
        client.endpoint_url("api/v1", "version/branches"),
        "https://api.liquidbounce.net/api/v1/version/branches"
    );
    assert_eq!(builds_endpoint("nextgen", true), "version/builds/nextgen/release");
    assert_eq!(builds_endpoint("nextgen", false), "version/builds/nextgen");
}

#[test]
fn waits_on_the_windows_it_opens() {
    assert_eq!(download_attempt(1).unwrap(), "Opening download page... (Attempt 1/2)");
    assert!(download_attempt(3).unwrap_err().starts_with("Failed to open download page after 2 attempts."));
    assert!(matches!(download_view_wait(Some("pid".to_owned()), true, false), Wait::Done(p) if p == "pid"));
    assert!(matches!(download_view_wait(None, false, true), Wait::Pending));
    assert!(matches!(
        login_wait(None, false, true, 300_001),
        Wait::Failed(m) if m == "Microsoft sign-in timed out."
    ));
    assert!(matches!(login_wait(None, false, true, 1000), Wait::Pending));
    assert!(is_completion_redirect("https://login.live.com/oauth20_desktop.srf?code=1", "https", "https://login.live.com/oauth20_desktop.srf"));
    assert!(is_completion_redirect("ms-xal-000://auth", "ms-xal-000", "https://login.live.com/oauth20_desktop.srf"));
    assert!(!is_completion_redirect("https://login.live.com/login", "https", "https://login.live.com/oauth20_desktop.srf"));
}

#[test]
fn reports_the_download_of_an_update() {
    let mut download = UpdateDownload::new(0);
    let first = download.on_chunk(100, Some(1000), 100);
    assert!(matches!(first.updates.as_slice(), [ProgressUpdate::SetMax(1000)]));
    let second = download.on_chunk(400, Some(1000), 500);
    assert!(matches!(
        second.updates.as_slice(),
        [ProgressUpdate::SetProgress(500), ProgressUpdate::SetDownloadSpeed(1000)]
    ));
    assert_eq!(second.log_percent, Some(50));
    assert_eq!(updating_label("11.0.0"), "Updating launcher to v11.0.0...");
    assert!(failure_message("offline").ends_with("\n\noffline"));
}

#[test]
fn hashes_files_as_mojang_lists_them() {
    assert_eq!(sha1_hex(b"abc"), "a9993e364706816aba3e25717850c26c9cd0d89d");
    assert!(requires_download(false, &None, &None));
    assert!(!requires_download(true, &Some("a".to_owned()), &Some("a".to_owned())));
    assert!(requires_download(true, &Some("a".to_owned()), &Some("b".to_owned())));
    assert!(!requires_download(true, &None, &Some("b".to_owned())));
    assert!(matches_expected(&"a".to_owned(), &None));
    assert!(!matches_expected(&"a".to_owned(), &Some("b".to_owned())));
}

#[test]
fn resolves_modrinth_versions() {
    assert_eq!(loader_name("fabric"), "Fabric");
    assert_eq!(loader_name(""), "");
    let project = || Project {
        id: "NNAgCjsB".to_owned(),
        slug: "entityculling".to_owned(),
        title: "Entity Culling".to_owned(),
    };
    assert_eq!(
        resolve(project(), None, "26.2", "fabric").unwrap_err(),
        "Entity Culling has no version for Fabric 26.2"
    );
    let version = Version {
        id: "5V6jfXWM".to_owned(),
        project_id: "NNAgCjsB".to_owned(),
        version_number: "1.11.1".to_owned(),
    };
    let resolved = resolve(project(), Some(version), "26.2", "fabric").unwrap();
    assert_eq!(resolved.version_id, "5V6jfXWM");
    assert_eq!(resolved.version, "1.11.1");
    assert_eq!(
        newer("old", Some(Version { id: "new".to_owned(), project_id: String::new(), version_number: "2.0".to_owned() })),
        Some("2.0".to_owned())
    );
    assert_eq!(
        newer("same", Some(Version { id: "same".to_owned(), project_id: String::new(), version_number: "2.0".to_owned() })),
        None
    );
}

#[test]
fn lists_the_installed_mods_before_the_files() {
    let installed = vec![ModrinthMod {
        project_id: "NNAgCjsB".to_owned(),
        slug: "entityculling".to_owned(),
        title: "Entity Culling".to_owned(),
        version: "1.11.1".to_owned(),
        version_id: "5V6jfXWM".to_owned(),
    }];
    // The directory lists its files in no particular order.
    let entries = vec![
        ("Zoom.jar".to_owned(), true),
        ("notes.txt".to_owned(), true),
        ("keystrokes-1.4.0.jar".to_owned(), true),
    ];
    let files = mod_jars(&entries);
    let states = vec![("keystrokes-1.4.0".to_owned(), false)];
    let mods = custom_mods(&installed, &files, &states);
    let rows: Vec<_> = mods
        .iter()
        .map(|row| (row.title.as_str(), row.loader_mod.enabled))
        .collect();
    assert_eq!(
        rows,
        [("Entity Culling", true), ("keystrokes-1.4.0", false), ("Zoom", true)]
    );
    assert!(mods[0].modrinth.as_ref().unwrap().update.is_none());
    assert!(matches!(&mods[2].loader_mod.source, ModSource::Local { file_name } if file_name == "Zoom.jar"));
}
