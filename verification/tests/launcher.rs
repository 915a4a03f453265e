use liquidlauncher::minecraft::libraries::library_class_paths;
use liquidlauncher::app::client::launch_allowed;
use liquidlauncher::app::client::{start_parameter, uuid_string};
use liquidlauncher::app::options::Options;
use liquidlauncher::error::LauncherError;
use liquidlauncher::minecraft::auth::MinecraftAccount;
use liquidlauncher::minecraft::java::{DistributionSelection, JavaDistribution, JreLocation, PlatformNames, AzulPackage, zulu_download_url};
use liquidlauncher::minecraft::launcher::{
    command_line, fill_templates, process_templates, raw_arguments, template_values, LaunchPaths,
    StartParameter,
};
use liquidlauncher::minecraft::libraries::{
    extend_class_path, library_plan, library_plans, library_setup_step, LibraryAction, LibraryEvent, LibraryPlan,
    LibrarySetup,
};
use liquidlauncher::minecraft::progress::{get_max, get_progress, ProgressUpdate, ProgressUpdateSteps};
use liquidlauncher::minecraft::rule_interpreter::Platform;
use liquidlauncher::minecraft::version::{
    ArgumentDeclaration, AssetObject, Library, LibraryArtifact, LibraryDownloads,
    V14ArgumentDeclaration, VersionProfile,
};
use liquidlauncher::utils::os::OperatingSystem;

fn values() -> Vec<(String, String)> {
    vec![
        ("auth_player_name".to_owned(), "Steve".to_owned()),
        ("classpath".to_owned(), "a.jar:b.jar:".to_owned()),
    ]
}

#[test]
fn fills_in_templates() {
    let filled = process_templates(&"--username ${auth_player_name}!".to_owned(), &values());
    assert_eq!(filled.unwrap(), "--username Steve!");
    assert_eq!(process_templates(&"$ {x} $".to_owned(), &values()).unwrap(), "$ {x} $");
    assert_eq!(
        process_templates(&"-cp=${classpath}${auth_player_name}".to_owned(), &values()).unwrap(),
        "-cp=a.jar:b.jar:Steve"
    );
}

#[test]
fn refuses_templates_it_cannot_fill() {
    assert_eq!(
        process_templates(&"${auth_player_name".to_owned(), &values()),
        Err(LauncherError::InvalidVersionProfile("invalid template, missing '}'".to_owned()))
    );
    assert_eq!(
        process_templates(&"${auth-player}".to_owned(), &values()),
        Err(LauncherError::InvalidVersionProfile("invalid character in template: '-'".to_owned()))
    );
    assert_eq!(
        process_templates(&"${user_home}".to_owned(), &values()),
        Err(LauncherError::UnknownTemplateParameter("user_home".to_owned()))
    );
    assert_eq!(
        fill_templates(&vec!["ok".to_owned(), "${nope}".to_owned(), "${".to_owned()], &values()),
        Err(LauncherError::UnknownTemplateParameter("nope".to_owned()))
    );
}

fn parameter() -> StartParameter {
    StartParameter {
        java_distribution: DistributionSelection::Automatic(String::new()),
        jvm_args: vec!["-Dcustom=1".to_owned()],
        memory: 4096,
        custom_data_path: None,
        auth_player_name: "Steve".to_owned(),
        auth_uuid: "uuid".to_owned(),
        auth_access_token: "token".to_owned(),
        auth_xuid: "xuid".to_owned(),
        clientid: "client".to_owned(),
        user_type: "msa".to_owned(),
        keep_launcher_open: false,
        concurrent_downloads: 10,
        client_account: None,
        skip_advertisement: false,
    }
}

fn profile(main_class: Option<&str>, line: Option<&str>) -> VersionProfile {
    VersionProfile {
        id: "1.8.9".to_owned(),
        asset_index_location: None,
        assets: None,
        inherits_from: None,
        minimum_launcher_version: None,
        downloads: None,
        compliance_level: None,
        libraries: vec![],
        main_class: main_class.map(str::to_owned),
        logging: None,
        version_type: "release".to_owned(),
        arguments: ArgumentDeclaration::V14(V14ArgumentDeclaration {
            minecraft_arguments: line.map(str::to_owned),
        }),
    }
}

fn platform() -> Platform {
    Platform {
        os: OperatingSystem::LINUX,
        arch: "x86_64".to_owned(),
        os_version: "6.1".to_owned(),
    }
}

#[test]
fn puts_the_command_line_together() {
    let profile = profile(
        Some("net.minecraft.client.main.Main"),
        Some("--username ${auth_player_name} --version ${version_name}"),
    );
    let parameter = parameter();
    let raw = raw_arguments(&profile, &parameter, &vec![], &platform()).unwrap();
    assert_eq!(
        raw,
        [
            "-Xmx4096M",
            "-XX:+UnlockExperimentalVMOptions",
            "-XX:+UseG1GC",
            "-XX:G1NewSizePercent=20",
            "-XX:G1ReservePercent=20",
            "-XX:MaxGCPauseMillis=50",
            "-XX:G1HeapRegionSize=32M",
            "-Djava.library.path=${natives_directory}",
            "-cp",
            "${classpath}",
            "-Dcustom=1",
            "net.minecraft.client.main.Main",
            "--username",
            "${auth_player_name}",
            "--version",
            "${version_name}",
        ]
    );
    let paths = LaunchPaths {
        game_directory: "/data/gameDir/nextgen".to_owned(),
        assets_root: "/data/assets".to_owned(),
        natives_directory: "/data/versions/1.8.9/natives".to_owned(),
    };
    let values = template_values(&profile, &parameter, &paths, &"1.8".to_owned(), &"a.jar:".to_owned(), "0.5.0");
    let line = command_line(&profile, &parameter, &vec![], &platform(), &values).unwrap();
    assert_eq!(line[7], "-Djava.library.path=/data/versions/1.8.9/natives");
    assert_eq!(line[9], "a.jar:");
    assert_eq!(line[13], "Steve");
    assert_eq!(line[15], "1.8.9");
}

#[test]
fn refuses_a_profile_without_main_class_or_game_arguments() {
    let parameter = parameter();
    assert_eq!(
        raw_arguments(&profile(None, Some("--demo")), &parameter, &vec![], &platform()),
        Err(LauncherError::InvalidVersionProfile("Main class unspecified".to_owned()))
    );
    assert_eq!(
        raw_arguments(&profile(Some("Main"), None), &parameter, &vec![], &platform()),
        Err(LauncherError::InvalidVersionProfile("no game arguments specified".to_owned()))
    );
}

fn artifact(path: &str) -> LibraryArtifact {
    LibraryArtifact {
        path: path.to_owned(),
        sha1: "abc".to_owned(),
        size: 3,
        url: format!("https://libraries.minecraft.net/{path}"),
    }
}

#[test]
fn plans_the_libraries() {
    let plain = Library {
        name: "com.mojang:brigadier:1.0.18".to_owned(),
        downloads: None,
        natives: None,
        rules: vec![],
        url: None,
    };
    match library_plan(&plain, &vec![], &platform()).unwrap() {
        LibraryPlan::Artifact(info) => {
            assert_eq!(info.path, "com/mojang/brigadier/1.0.18/brigadier-1.0.18.jar");
            assert_eq!(
                info.url,
                "https://libraries.minecraft.net/com/mojang/brigadier/1.0.18/brigadier-1.0.18.jar"
            );
            assert_eq!(info.sha1, None);
        }
        _ => panic!("a plain library goes on the class path"),
    }

    let native = Library {
        name: "org.lwjgl:lwjgl-platform:2.9.4".to_owned(),
        downloads: Some(LibraryDownloads {
            artifact: None,
            classifiers: Some(vec![
                ("natives-windows".to_owned(), artifact("w.jar")),
                ("natives-linux".to_owned(), artifact("l.jar")),
            ]),
        }),
        natives: Some(vec![
            ("linux".to_owned(), "natives-linux".to_owned()),
            ("windows".to_owned(), "natives-windows".to_owned()),
        ]),
        rules: vec![],
        url: None,
    };
    match library_plan(&native, &vec![], &platform()).unwrap() {
        LibraryPlan::Native(info) => assert_eq!(info.path, "l.jar"),
        _ => panic!("the native jar of this system is unpacked"),
    }
    let osx = Platform { os: OperatingSystem::OSX, ..platform() };
    assert!(matches!(library_plan(&native, &vec![], &osx), Ok(LibraryPlan::NoNative)));

    let no_classifiers = Library { downloads: None, ..native };
    assert_eq!(
        library_plan(&no_classifiers, &vec![], &platform()).err(),
        Some(LauncherError::InvalidVersionProfile(
            "missing classifiers, but natives required.".to_owned()
        ))
    );

    let mut class_path = String::new();
    extend_class_path(&mut class_path, &vec!["a.jar".to_owned(), "b.jar".to_owned()], OperatingSystem::WINDOWS);
    assert_eq!(class_path, "a.jar;b.jar;");
}

#[test]
fn names_asset_objects_by_hash() {
    let object = AssetObject {
        hash: "bdf48ef6b5d0d23bbb02e17d04865216179f510a".to_owned(),
        size: 9,
    };
    assert_eq!(object.directory(), "bd");
    assert_eq!(
        object.url(),
        "https://resources.download.minecraft.net/bd/bdf48ef6b5d0d23bbb02e17d04865216179f510a"
    );
}

#[test]
fn counts_progress_by_step() {
    assert_eq!(get_progress(2, 50, 200), 225);
    assert_eq!(get_progress(0, 7, 0), 700);
    assert_eq!(get_max(5), 500);
    assert!(matches!(
        ProgressUpdate::set_for_step(ProgressUpdateSteps::DownloadLibraries, 1, 2),
        ProgressUpdate::SetProgress(3584)
    ));
    assert!(matches!(ProgressUpdate::set_to_max(), ProgressUpdate::SetProgress(5120)));
    assert!(matches!(ProgressUpdate::set_max(), ProgressUpdate::SetMax(5120)));
}

#[test]
fn gives_offline_players_the_uuid_minecraft_gives_them() {
    match MinecraftAccount::auth_offline("Notch".to_owned()) {
        MinecraftAccount::OfflineAccount { name, id } => {
            assert_eq!(name, "Notch");
            assert_eq!(
                id,
                [181, 10, 211, 133, 130, 157, 49, 65, 162, 22, 126, 125, 117, 57, 186, 127]
            );
        }
        _ => panic!("an offline account"),
    }
}

fn names() -> PlatformNames {
    PlatformNames {
        arch: "x64".to_owned(),
        archive_type: "tar.gz".to_owned(),
        adoptium_os: "linux".to_owned(),
        graal_os: "linux".to_owned(),
        zulu_os: "linux".to_owned(),
        zulu_arch: "x64".to_owned(),
    }
}

#[test]
fn finds_where_runtimes_are_downloaded() {
    match JavaDistribution::Temurin.get_url(21, &names()).unwrap() {
        JreLocation::Direct(url) => assert_eq!(
            url,
            "https://api.adoptium.net/v3/binary/latest/21/ga/linux/x64/jre/hotspot/normal/eclipse?project=jdk"
        ),
        _ => panic!("Adoptium links directly"),
    }
    match JavaDistribution::GraalVM.get_url(17, &names()).unwrap() {
        JreLocation::Direct(url) => assert_eq!(
            url,
            "https://download.oracle.com/graalvm/17/archive/graalvm-jdk-17.0.12_linux-x64_bin.tar.gz"
        ),
        _ => panic!("Oracle links directly"),
    }
    assert_eq!(
        JavaDistribution::GraalVM.get_url(8, &names()).err(),
        Some("GraalVM only supports Java 17+".to_owned())
    );
    assert!(matches!(JavaDistribution::Zulu.get_url(8, &names()), Ok(JreLocation::ZuluQuery(_))));

    let packages = vec![
        AzulPackage { download_url: "old".to_owned(), latest: Some(false) },
        AzulPackage { download_url: "new".to_owned(), latest: None },
    ];
    assert_eq!(zulu_download_url(&packages, 8, &names()), Ok("new".to_owned()));
    assert_eq!(
        zulu_download_url(&vec![], 8, &names()),
        Err("No Zulu runtime available for Java 8 on linux-x64".to_owned())
    );
}

#[test]
fn starts_the_client_with_the_selected_account() {
    let mut options = Options::default();
    assert_eq!(
        start_parameter(Options::default(), String::new(), "xuid".to_owned()).err(),
        Some("no account selected".to_owned())
    );
    options.start_options.minecraft_account = Some(MinecraftAccount::auth_offline("Notch".to_owned()));
    let parameter = start_parameter(options, "unused".to_owned(), "xuid".to_owned()).unwrap();
    assert_eq!(parameter.auth_player_name, "Notch");
    assert_eq!(parameter.auth_uuid, "b50ad385-829d-3141-a216-7e7d7539ba7f");
    assert_eq!(parameter.auth_access_token, "-");
    assert_eq!(parameter.user_type, "legacy");
    assert_eq!(parameter.clientid, "0add8caf-2cc6-4546-b798-c3d171217dd9");
    assert_eq!(parameter.memory, 4096);
    assert!(parameter.custom_data_path.is_none());
    assert!(!parameter.skip_advertisement);
    assert_eq!(uuid_string(&[0xff; 16]), "ffffffff-ffff-ffff-ffff-ffffffffffff");
}

#[test]
fn refuses_a_launch_beside_a_running_client() {
    assert_eq!(launch_allowed(true), Err("client is already running".to_owned()));
    assert_eq!(launch_allowed(false), Ok(()));
}

#[test]
fn joins_the_class_paths_of_the_libraries_or_fails_with_the_first_failure() {
    let found = library_class_paths(&vec![
        Ok(Some("libraries/a.jar".to_owned())),
        Ok(None),
        Ok(Some("libraries/b.jar".to_owned())),
    ]);
    assert_eq!(found, Ok(vec!["libraries/a.jar".to_owned(), "libraries/b.jar".to_owned()]));
    let failed = library_class_paths(&vec![
        Ok(Some("libraries/a.jar".to_owned())),
        Err("Failed to download library: b".to_owned()),
        Err("Failed to download library: c".to_owned()),
    ]);
    assert_eq!(failed, Err("Failed to download library: b".to_owned()));
    assert_eq!(library_class_paths(&vec![]), Ok(vec![]));
}

#[test]
fn plans_every_library_of_a_profile_in_order() {
    let plain = Library {
        name: "com.mojang:brigadier:1.0.18".to_owned(),
        downloads: None,
        natives: None,
        rules: vec![],
        url: None,
    };
    let broken = Library { name: "no-colons".to_owned(), downloads: None, natives: None, rules: vec![], url: None };
    let plans = library_plans(&vec![plain, broken], &vec![], &platform());
    assert_eq!(plans.len(), 2);
    assert!(matches!(plans[0], Ok(LibraryPlan::Artifact(_))));
    assert_eq!(
        plans[1].as_ref().err(),
        Some(&LauncherError::InvalidVersionProfile("Invalid artifact name: no-colons".to_owned()))
    );
}

#[test]
fn reports_the_library_progress_around_the_setup() {
    let (state, actions) = library_setup_step(LibrarySetup::begin(3), LibraryEvent::Start);
    assert!(matches!(state, LibrarySetup::Fetching { total: 3 }));
    assert_eq!(actions.len(), 3);
    assert!(matches!(&actions[0], LibraryAction::Progress(ProgressUpdate::SetLabel(l)) if l == "Checking libraries..."));
    assert!(matches!(actions[1], LibraryAction::Progress(ProgressUpdate::SetProgress(3072))));
    assert!(matches!(actions[2], LibraryAction::SetUp));

    let outcomes = vec![Ok(Some("/libs/b.jar".to_owned())), Ok(None), Ok(Some("/libs/a.jar".to_owned()))];
    let (done, actions) = library_setup_step(state, LibraryEvent::Fetched(outcomes));
    assert!(matches!(done, LibrarySetup::Done));
    assert_eq!(actions.len(), 3);
    match &actions[0] {
        LibraryAction::AddToClassPath(found) => assert_eq!(found, &["/libs/b.jar", "/libs/a.jar"]),
        _ => panic!("the paths join the class path first"),
    }
    assert!(matches!(actions[1], LibraryAction::Progress(ProgressUpdate::SetProgress(4096))));
    assert!(matches!(actions[2], LibraryAction::Finish));

    let (_, actions) = library_setup_step(done, LibraryEvent::Start);
    assert!(actions.is_empty());
}

#[test]
fn ends_the_library_setup_with_the_first_failure() {
    let (state, _) = library_setup_step(LibrarySetup::begin(2), LibraryEvent::Start);
    let outcomes = vec![
        Ok(Some("/libs/a.jar".to_owned())),
        Err("Failed to download library: b".to_owned()),
        Err("Failed to download library: c".to_owned()),
    ];
    let (done, actions) = library_setup_step(state, LibraryEvent::Fetched(outcomes));
    assert!(matches!(done, LibrarySetup::Done));
    assert_eq!(actions.len(), 1);
    assert!(matches!(&actions[0], LibraryAction::Fail(e) if e == "Failed to download library: b"));

    let ready = LibrarySetup::begin(1);
    let (same, actions) = library_setup_step(ready, LibraryEvent::Fetched(vec![]));
    assert!(matches!(same, LibrarySetup::Ready { total: 1 }));
    assert!(actions.is_empty());
}
