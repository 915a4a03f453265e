use liquidlauncher::minecraft::assets::AssetTally;
use liquidlauncher::minecraft::libraries::{
    downloaded_client_jar, downloaded_library, existing_library, sha1_source, Existing, Sha1Source,
};
use liquidlauncher::minecraft::java::{
    exit_outcome, java_binary, needs_execute, on_game_event,
    runtime_archive, runtime_dir_name, Archive, GameAction, GameEvent, JavaDistribution,
};
use liquidlauncher::minecraft::progress::{download_progress, ProgressUpdate, ProgressUpdateSteps};
use liquidlauncher::error::LauncherError;
use liquidlauncher::minecraft::rule_interpreter::{check_condition, Platform};
use liquidlauncher::minecraft::version::{Argument, ArgumentValue, OsRule, Rule, RuleAction};
use liquidlauncher::utils::os::OperatingSystem;

#[test]
fn keeps_each_runtime_in_a_directory_of_its_own() {
    assert_eq!(runtime_dir_name(JavaDistribution::Temurin, 21), "temurin_21");
    assert_eq!(runtime_dir_name(JavaDistribution::GraalVM, 17), "graalvm_17");
    assert_eq!(runtime_dir_name(JavaDistribution::Zulu, 8), "zulu_8");
}

#[test]
fn finds_the_java_binary_where_each_system_keeps_it() {
    assert_eq!(java_binary(OperatingSystem::WINDOWS), ["bin", "javaw.exe"]);
    assert_eq!(java_binary(OperatingSystem::OSX), ["Contents", "Home", "bin", "java"]);
    assert_eq!(java_binary(OperatingSystem::LINUX), ["bin", "java"]);
    assert_eq!(java_binary(OperatingSystem::UNKNOWN), ["bin", "java"]);
}

#[test]
fn unpacks_runtimes_as_each_system_gets_them() {
    assert_eq!(runtime_archive(OperatingSystem::WINDOWS), Ok(Archive::Zip));
    assert_eq!(runtime_archive(OperatingSystem::LINUX), Ok(Archive::TarGz));
    assert_eq!(runtime_archive(OperatingSystem::OSX), Ok(Archive::TarGz));
    assert_eq!(runtime_archive(OperatingSystem::UNKNOWN), Err("Unsupported OS".to_owned()));
}

#[test]
fn makes_the_binary_executable_when_an_execute_bit_is_missing() {
    assert!(!needs_execute(0o755));
    assert!(!needs_execute(0o111));
    assert!(needs_execute(0o754));
    assert!(needs_execute(0o644));
    assert!(needs_execute(0o700));
}

#[test]
fn shows_a_runtime_download_within_its_step() {
    assert!(matches!(download_progress(ProgressUpdateSteps::DownloadJRE, 0, 200), ProgressUpdate::SetProgress(v) if v == 1024));
    assert!(matches!(download_progress(ProgressUpdateSteps::DownloadJRE, 100, 200), ProgressUpdate::SetProgress(v) if v == 1024 + 512));
    assert!(matches!(download_progress(ProgressUpdateSteps::DownloadJRE, 200, 200), ProgressUpdate::SetProgress(v) if v == 2048));
    // Without a known size, the bytes count against one.
    assert!(matches!(download_progress(ProgressUpdateSteps::DownloadJRE, 0, 0), ProgressUpdate::SetProgress(v) if v == 1024));
    // The client jar is the step after.
    assert!(matches!(download_progress(ProgressUpdateSteps::DownloadClientJar, 50, 100), ProgressUpdate::SetProgress(v) if v == 2048 + 512));
}

#[test]
fn ends_the_launch_by_the_exit_code() {
    assert_eq!(exit_outcome(Some(0)), Ok(()));
    assert_eq!(exit_outcome(Some(-1073740791)), Ok(()));
    assert_eq!(
        exit_outcome(Some(1)),
        Err("Process exited with non-zero exit code: 1.".to_owned())
    );
    assert_eq!(
        exit_outcome(Some(-1)),
        Err("Process exited with non-zero exit code: -1.".to_owned())
    );
    assert_eq!(
        exit_outcome(None),
        Err("Process exited with non-zero exit code: 7900.".to_owned())
    );
}

#[test]
fn forwards_the_game_output_until_it_ends() {
    assert!(matches!(on_game_event(GameEvent::Stdout(b"hi".to_vec())), GameAction::Output(b) if b == b"hi"));
    assert!(matches!(on_game_event(GameEvent::Stderr(b"oops".to_vec())), GameAction::Errors(b) if b == b"oops"));
    assert!(matches!(on_game_event(GameEvent::Terminate), GameAction::Kill));
    assert!(matches!(on_game_event(GameEvent::Exited(Some(0))), GameAction::Finish(Ok(()))));
    assert!(matches!(on_game_event(GameEvent::Exited(Some(2))), GameAction::Finish(Err(_))));
}

#[test]
fn moves_the_bar_only_for_downloaded_assets() {
    let mut tally = AssetTally::new(4);
    assert!(matches!(tally.start(), ProgressUpdate::SetProgress(v) if v == 4096));
    assert!(tally.checked(false).is_none());
    // The count before this object: one checked.
    assert!(matches!(tally.checked(true), Some(ProgressUpdate::SetProgress(v)) if v == 4096 + 256));
    assert!(tally.checked(false).is_none());
    assert!(matches!(tally.checked(true), Some(ProgressUpdate::SetProgress(v)) if v == 4096 + 768));
    assert!(matches!(tally.finish(), ProgressUpdate::SetProgress(v) if v == 5120));
}

#[test]
fn takes_a_bare_argument_as_given_always() {
    let argument = Argument::from_str("--demo");
    assert!(argument.rules.is_none());
    assert!(matches!(argument.value, ArgumentValue::SINGLE(v) if v == "--demo"));
}

#[test]
fn checks_library_files_against_their_checksums() {
    assert_eq!(sha1_source(Some("ab12".to_owned()), true), Sha1Source::Known("ab12".to_owned()));
    assert_eq!(sha1_source(None, true), Sha1Source::Beside);
    assert_eq!(sha1_source(None, false), Sha1Source::Fetch);

    let known = Some("ab12".to_owned());
    assert_eq!(
        existing_library("gson", &"ab12".to_owned(), &known),
        (Existing::Keep, "Library gson already exists and SHA1 matches.".to_owned())
    );
    assert_eq!(
        existing_library("gson", &"ff00".to_owned(), &known),
        (Existing::Replace, "Library gson already exists but sha1 does not match.".to_owned())
    );
    assert_eq!(
        existing_library("gson", &"ff00".to_owned(), &None),
        (Existing::Keep, "Library gson already exists.".to_owned())
    );

    assert_eq!(downloaded_library("gson", &"ab12".to_owned(), &known), Ok(()));
    assert_eq!(
        downloaded_library("gson", &"ff00".to_owned(), &known),
        Err("SHA1 of library gson does not match.".to_owned())
    );
    assert_eq!(downloaded_library("gson", &"ff00".to_owned(), &None), Ok(()));
    assert_eq!(downloaded_client_jar(&"ab12".to_owned(), &"ab12".to_owned()), Ok(()));
    assert_eq!(
        downloaded_client_jar(&"ff00".to_owned(), &"ab12".to_owned()),
        Err("Client JAR download failed. SHA1 mismatch.".to_owned())
    );
}

fn rule(action: RuleAction, os: Option<&str>, version: Option<&str>) -> Rule {
    Rule {
        action,
        os: os.map(|name| OsRule {
            name: Some(name.to_owned()),
            version: version.map(str::to_owned),
            arch: None,
        }),
        features: None,
    }
}

fn platform(os: OperatingSystem, version: &str) -> Platform {
    Platform { os, arch: "x86_64".to_owned(), os_version: version.to_owned() }
}

#[test]
fn lets_the_last_rule_that_applies_decide() {
    let rules = vec![rule(RuleAction::Allow, None, None), rule(RuleAction::Disallow, Some("osx"), None)];
    assert_eq!(check_condition(&rules, &vec![], &platform(OperatingSystem::LINUX, "6.1")), Ok(true));
    assert_eq!(check_condition(&rules, &vec![], &platform(OperatingSystem::OSX, "14.2")), Ok(false));
    // No rules admit everything, even on an unknown system.
    assert_eq!(check_condition(&vec![], &vec![], &platform(OperatingSystem::UNKNOWN, "")), Ok(true));
    assert_eq!(
        check_condition(&rules, &vec![], &platform(OperatingSystem::UNKNOWN, "")),
        Err(LauncherError::UnknownOperatingSystem)
    );
    // A version pattern decides by a match anywhere in the system's version.
    let versioned = vec![rule(RuleAction::Allow, Some("osx"), Some("^10\\.5\\.\\d$"))];
    assert_eq!(check_condition(&versioned, &vec![], &platform(OperatingSystem::OSX, "10.5.8")), Ok(true));
    assert_eq!(check_condition(&versioned, &vec![], &platform(OperatingSystem::OSX, "14.2")), Ok(false));
    let broken = vec![rule(RuleAction::Allow, Some("linux"), Some("("))];
    assert_eq!(
        check_condition(&broken, &vec![], &platform(OperatingSystem::LINUX, "6.1")),
        Err(LauncherError::InvalidRegex("(".to_owned()))
    );
}
