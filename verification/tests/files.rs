use liquidlauncher::app::client::custom_mods_dir;
use liquidlauncher::app::modrinth::mod_jars;
use liquidlauncher::app::options::{
    cleared_dirs, data_directory, default_concurrent_downloads, LegacyOptions, Options,
};
use liquidlauncher::app::vanilla::{chosen_dir, default_location, status_of, BaseDir};
use liquidlauncher::utils::order::{chars_le, sort_by_key};
use liquidlauncher::utils::os::OperatingSystem;

fn entry(name: &str, is_file: bool) -> (String, bool) {
    (name.to_owned(), is_file)
}

#[test]
fn lists_the_jars_by_their_names_in_lower_case() {
    let entries = vec![
        entry("B.jar", true),
        entry("a.jar", true),
        entry("notes.txt", true),
        entry("folder.jar", false),
        entry("A.jar", true),
        entry(".jar", true),
        entry("sodium.jar.disabled", true),
    ];
    // `a.jar` and `A.jar` are the same in lower case and keep the order listed.
    assert_eq!(mod_jars(&entries), [".jar", "a.jar", "A.jar", "B.jar"]);
    assert!(mod_jars(&vec![]).is_empty());
}

#[test]
fn orders_text_by_its_characters() {
    let chars = |s: &str| s.chars().collect::<Vec<char>>();
    assert!(chars_le(&chars("abc"), &chars("abd")));
    assert!(chars_le(&chars("ab"), &chars("abc")));
    assert!(!chars_le(&chars("abc"), &chars("ab")));
    assert!(chars_le(&chars(""), &chars("")));
    assert!(chars_le(&chars("Z"), &chars("a")));
}

#[test]
fn sorts_by_key_stably() {
    let item = |key: &str, value: &str| (key.chars().collect::<Vec<char>>(), value.to_owned());
    let sorted = sort_by_key(vec![item("b", "1"), item("a", "2"), item("b", "3"), item("a", "4")]);
    let values: Vec<&str> = sorted.iter().map(|(_, v)| v.as_str()).collect();
    assert_eq!(values, ["2", "4", "1", "3"]);
}

#[test]
fn clears_the_data_below_the_chosen_directory() {
    let mut options = Options::default();
    assert_eq!(data_directory(&options.start_options, "/home/a/.local/share/LiquidLauncher".to_owned()), "/home/a/.local/share/LiquidLauncher");
    options.start_options.custom_data_path = "/mnt/games".to_owned();
    assert_eq!(data_directory(&options.start_options, "/home/a/.local/share/LiquidLauncher".to_owned()), "/mnt/games");
    assert_eq!(
        cleared_dirs(),
        ["assets", "gameDir", "libraries", "mod_cache", "natives", "runtimes", "versions"]
    );
}

#[test]
fn finds_a_plain_minecraft_installation() {
    assert_eq!(default_location(OperatingSystem::WINDOWS), Some((BaseDir::Data, ".minecraft")));
    assert_eq!(
        default_location(OperatingSystem::OSX),
        Some((BaseDir::Home, "Library/Application Support/minecraft"))
    );
    assert_eq!(default_location(OperatingSystem::LINUX), Some((BaseDir::Home, ".minecraft")));
    assert_eq!(default_location(OperatingSystem::UNKNOWN), None);

    let default = Some("/home/a/.minecraft".to_owned());
    assert_eq!(chosen_dir(Some("/srv/mc".to_owned()), default.clone()), Some("/srv/mc".to_owned()));
    assert_eq!(chosen_dir(Some(String::new()), default.clone()), default);
    assert_eq!(chosen_dir(None, default.clone()), default);
    assert_eq!(chosen_dir(None, None), None);

    let found = status_of(Some("/srv/mc".to_owned()), true, 3, 2, 1);
    assert!(found.found);
    assert_eq!(found.path, "/srv/mc");
    assert_eq!((found.saves_count, found.resource_packs_count, found.shader_packs_count), (3, 2, 1));

    let missing = status_of(Some("/srv/mc".to_owned()), false, 3, 2, 1);
    assert!(!missing.found);
    assert_eq!(missing.path, "");
    assert_eq!((missing.saves_count, missing.resource_packs_count, missing.shader_packs_count), (0, 0, 0));
    assert!(!status_of(None, true, 3, 2, 1).found);
}

#[test]
fn carries_the_older_defaults_over() {
    let legacy = LegacyOptions::default();
    assert_eq!(legacy.memory_percentage, 80);
    assert_eq!(legacy.concurrent_downloads, 10);
    let options = Options::from_legacy(legacy);
    assert_eq!(options.launcher_options.concurrent_downloads, 10);
    assert_eq!(options.start_options.memory, 4096);
    assert_eq!(options.version_options.build_id, -1);
}

#[test]
fn keeps_added_mods_by_branch_and_version() {
    assert_eq!(custom_mods_dir("nextgen", "26.2"), ["custom_mods", "nextgen-26.2"]);
}

#[test]
fn runs_ten_downloads_at_once_by_default() {
    assert_eq!(default_concurrent_downloads(), 10);
}
