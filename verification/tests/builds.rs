use liquidlauncher::app::builds::{select, short_commit, SelectedBuild, Selection};
use liquidlauncher::app::client_api::{Build, SubsystemSpecificData};
use liquidlauncher::app::marketplace::revisions::utc_seconds;
use liquidlauncher::minecraft::java::JavaDistribution;

fn paginated_build() -> Build {
    // An item of GET /api/v3/version/nextgen/builds?nightly=true.
    Build {
        build_id: 17371,
        commit_id: "adfddc0781d056201037ac16b216cfd3e2df4e4a".to_owned(),
        branch: "nextgen".to_owned(),
        subsystem: "fabric".to_owned(),
        lb_version: "0.40.1".to_owned(),
        mc_version: "26.2".to_owned(),
        release: false,
        date: utc_seconds(2026, 9, 23, 13, 24, 1),
        message: "refactor(interop): switch engine to CIO (#9233)\n\nBecause we don't need HTTP2"
            .to_owned(),
        url: "https://liquidbounce.net/download/queue/17371".to_owned(),
        jre_distribution: JavaDistribution::Temurin,
        jre_version: 25,
        subsystem_specific_data: SubsystemSpecificData {
            fabric_api_version: "0.153.0+26.2".to_owned(),
            fabric_loader_version: "0.19.3".to_owned(),
            kotlin_version: "2.4.0".to_owned(),
            kotlin_mod_version: "1.13.12+kotlin.2.4.0".to_owned(),
        },
    }
}

#[test]
fn reads_a_build_of_the_paginated_endpoint() {
    let build = paginated_build();

    assert_eq!(short_commit(&build), "adfddc0");
    assert_eq!(
        Selection::of(&build, true, String::new()),
        Selection::Latest { release: false }
    );
    assert!(matches!(
        Selection::of(&build, false, String::new()),
        Selection::Pinned { commit, .. } if commit == "adfddc0"
    ));

    let latest = SelectedBuild {
        build_id: -1,
        nightly: true,
        build: paginated_build(),
    };
    assert!(latest.is_for(-1, true));
    assert!(!latest.is_for(-1, false));
    assert!(!latest.is_for(17371, true));

    let pinned = SelectedBuild {
        build_id: 17371,
        nightly: true,
        build,
    };
    assert!(pinned.is_for(17371, false));
    assert!(!pinned.is_for(-1, true));
}

#[test]
fn selects_the_build_chosen_in_the_options() {
    let mut older = paginated_build();
    older.build_id = 17300;
    let builds = vec![paginated_build(), older];
    assert_eq!(select(&builds, -1).unwrap().build_id, 17371);
    assert_eq!(select(&builds, 17300).unwrap().build_id, 17300);
    assert!(select(&builds, 16000).is_none());
    assert!(select(&builds, -7).is_none());
    assert!(select(&vec![], -1).is_none());
}
