use liquidlauncher::app::client_api::{LoaderMod, ModSource};
use liquidlauncher::app::modrinth_query::{
    endpoint, known_hashes, project_path, project_versions_path, projects_params, search_params,
    version_params,
};
use liquidlauncher::app::modrinth::{
    apply_checks, custom_mods, identified, project_ids, search_query, state, versions_by_hash,
    with_mod_states, Held, Hit, HitState, ModrinthMod, Project, TrackedMod, Version,
};

fn loader_mod(name: &str, artifact: &str, enabled: bool) -> LoaderMod {
    LoaderMod {
        required: false,
        enabled,
        name: name.to_owned(),
        source: ModSource::Repository {
            repository: "modrinth".to_owned(),
            artifact: artifact.to_owned(),
        },
    }
}

fn hit(project_id: &str, slug: &str) -> Hit {
    Hit {
        project_id: project_id.to_owned(),
        slug: slug.to_owned(),
        title: slug.to_owned(),
        description: String::new(),
        author: String::new(),
        downloads: 0,
    }
}

#[test]
fn tells_what_the_game_holds() {
    // Build 16941 launches these, the recommended mods for 26.2 name their projects so.
    let launched = vec![
        loader_mod("Fabric API", "maven.modrinth:fabric-api:0.153.0+26.2", true),
        loader_mod(
            "Fabric Kotlin",
            "net.fabricmc:fabric-language-kotlin:1.13.12+kotlin.2.4.0",
            true,
        ),
    ];
    let recommended = vec![
        loader_mod("Sodium", "maven.modrinth:sodium:mc26.2-0.9.1-fabric", true),
        loader_mod("Iris", "maven.modrinth:iris:1.11.2+26.2-fabric", false),
        loader_mod(
            "ImmediatelyFast",
            "maven.modrinth:ImmediatelyFast:1.16.1+26.2-fabric",
            true,
        ),
        loader_mod(
            "Baritone",
            "baritone:baritone-fabric:26.2-1.11.1-18-g722bbec8",
            false,
        ),
    ];
    // Entity Culling, installed from Modrinth.
    let installed = vec!["NNAgCjsB".to_owned()];
    let held = Held {
        launched: &launched,
        recommended: &recommended,
        installed: &installed,
    };

    let states: Vec<_> = [
        hit("P7dR8mSH", "fabric-api"),
        hit("Ha28R6CL", "fabric-language-kotlin"),
        hit("AANobbMI", "sodium"),
        hit("5ZwdcRci", "immediatelyfast"),
        hit("YL57xq9U", "iris"),
        hit("NNAgCjsB", "entityculling"),
        hit("fQEb0iXm", "krypton"),
        hit("baritone", "baritone"),
    ]
    .iter()
    .map(|hit| state(hit, &held))
    .collect();
    assert_eq!(
        states,
        [
            HitState::Included,
            HitState::Included,
            HitState::Installed,
            HitState::Installed,
            HitState::Recommended {
                name: "Iris".to_owned()
            },
            HitState::Installed,
            HitState::Available,
            HitState::Available,
        ]
    );
}

#[test]
fn loads_through_the_maven_repository() {
    let entity_culling = ModrinthMod {
        project_id: "NNAgCjsB".to_owned(),
        slug: "entityculling".to_owned(),
        title: "Entity Culling".to_owned(),
        version: "1.11.1".to_owned(),
        version_id: "5V6jfXWM".to_owned(),
    };
    let loader_mod = entity_culling.loader_mod(true);
    assert_eq!(loader_mod.name, "entityculling");
    assert_eq!(
        loader_mod.source.get_path().unwrap(),
        "maven/modrinth/NNAgCjsB/5V6jfXWM/NNAgCjsB-5V6jfXWM.jar"
    );
}

#[test]
fn turns_recommended_mods_on_and_off_as_chosen() {
    let mut recommended = vec![
        loader_mod("Sodium", "maven.modrinth:sodium:1", true),
        loader_mod("Iris", "maven.modrinth:iris:1", true),
        loader_mod("Zoomify", "maven.modrinth:zoomify:1", false),
    ];
    let states = vec![("Iris".to_owned(), false), ("Zoomify".to_owned(), true)];
    with_mod_states(&mut recommended, &states);
    let enabled: Vec<(&str, bool)> = recommended.iter().map(|m| (m.name.as_str(), m.enabled)).collect();
    assert_eq!(enabled, [("Sodium", true), ("Iris", false), ("Zoomify", true)]);
}

#[test]
fn searches_for_what_was_typed_trimmed() {
    assert_eq!(search_query(Some("  sodium \n".to_owned())), Some("sodium".to_owned()));
    assert_eq!(search_query(Some(" \t ".to_owned())), None);
    assert_eq!(search_query(Some(String::new())), None);
    assert_eq!(search_query(None), None);
}

fn version(id: &str, project_id: &str, number: &str) -> Version {
    Version { id: id.to_owned(), project_id: project_id.to_owned(), version_number: number.to_owned() }
}

#[test]
fn identifies_the_files_modrinth_knows() {
    let hashes = vec![Some("aa".to_owned()), None, Some("bb".to_owned()), Some("cc".to_owned())];
    let known = vec![
        ("bb".to_owned(), version("v2", "lithium", "0.16.0")),
        ("aa".to_owned(), version("v1", "sodium", "0.9.1")),
    ];
    let versions = versions_by_hash(&hashes, &known);
    let ids: Vec<Option<&str>> = versions.iter().map(|v| v.as_ref().map(|v| v.id.as_str())).collect();
    assert_eq!(ids, [Some("v1"), None, Some("v2"), None]);
    assert_eq!(project_ids(&versions), ["sodium", "lithium"]);

    let projects = vec![
        Project { id: "sodium".to_owned(), slug: "sodium".to_owned(), title: "Sodium".to_owned() },
    ];
    let newest = vec![Some(version("v9", "sodium", "0.9.2")), None, None, None];
    let found = identified(versions, &projects, newest);
    assert_eq!(found.len(), 4);
    let (title, sodium) = found[0].as_ref().unwrap();
    assert_eq!(title, "Sodium");
    assert_eq!(sodium.project_id, "sodium");
    assert_eq!(sodium.version, "0.9.1");
    assert_eq!(sodium.update.as_deref(), Some("0.9.2"));
    // Lithium's project was not listed, so the file stays unknown.
    assert!(found[1].is_none() && found[2].is_none() && found[3].is_none());
}

#[test]
fn adds_what_checking_found_to_the_rows() {
    let installed = vec![ModrinthMod {
        project_id: "AANobbMI".to_owned(),
        slug: "sodium".to_owned(),
        title: "Sodium".to_owned(),
        version: "0.9.1".to_owned(),
        version_id: "v1".to_owned(),
    }];
    let files = vec!["lithium.jar".to_owned(), "own.jar".to_owned()];
    let mut rows = custom_mods(&installed, &files, &vec![]);
    let found = TrackedMod { project_id: "gvQqBUqZ".to_owned(), version: "0.16.0".to_owned(), update: None };
    apply_checks(
        &mut rows,
        1,
        vec![Some("0.9.2".to_owned())],
        Some(vec![Some(("Lithium".to_owned(), found)), None]),
    );
    assert_eq!(rows[0].modrinth.as_ref().unwrap().update.as_deref(), Some("0.9.2"));
    assert_eq!(rows[1].title, "Lithium");
    assert_eq!(rows[1].modrinth.as_ref().unwrap().project_id, "gvQqBUqZ");
    assert_eq!(rows[2].title, "own");
    assert!(rows[2].modrinth.is_none());

    // When looking the files up failed, they stay as they were.
    let mut rows = custom_mods(&installed, &files, &vec![]);
    apply_checks(&mut rows, 1, vec![None], None);
    assert!(rows[0].modrinth.as_ref().unwrap().update.is_none());
    assert_eq!(rows[1].title, "lithium");
    assert!(rows[1].modrinth.is_none());
}

#[test]
fn asks_modrinth_for_mods_of_the_build() {
    let params = search_params(None, "26.2", "fabric");
    assert_eq!(
        params,
        [
            ("query".to_owned(), String::new()),
            ("index".to_owned(), "downloads".to_owned()),
            (
                "facets".to_owned(),
                r#"[["versions:26.2"],["categories:fabric"],["project_type:mod"]]"#.to_owned()
            ),
            ("limit".to_owned(), "20".to_owned()),
        ]
    );
    let params = search_params(Some("sodium"), "26.2", "fabric");
    assert_eq!(params[0].1, "sodium");
    assert_eq!(params[1].1, "relevance");

    assert_eq!(
        version_params("26.2", "fabric"),
        [
            ("loaders".to_owned(), r#"["fabric"]"#.to_owned()),
            ("game_versions".to_owned(), r#"["26.2"]"#.to_owned()),
        ]
    );
    assert_eq!(
        projects_params(&vec!["AANobbMI".to_owned(), "gvQqBUqZ".to_owned()]),
        [("ids".to_owned(), r#"["AANobbMI","gvQqBUqZ"]"#.to_owned())]
    );
    assert_eq!(endpoint("search"), "https://api.modrinth.com/v2/search");
    assert_eq!(project_versions_path("AANobbMI"), "project/AANobbMI/version");
    assert_eq!(project_path("AANobbMI"), "project/AANobbMI");
    assert_eq!(
        known_hashes(&vec![Some("aa".to_owned()), None, Some("bb".to_owned())]),
        ["aa", "bb"]
    );
}

#[test]
fn writes_the_query_lists_as_json_with_escapes() {
    assert_eq!(
        version_params("1.\n\u{1}", "fab\"ric\\"),
        [
            ("loaders".to_owned(), r#"["fab\"ric\\"]"#.to_owned()),
            ("game_versions".to_owned(), r#"["1.\n\u0001"]"#.to_owned()),
        ]
    );
    assert_eq!(
        projects_params(&vec!["tab\there".to_owned(), "é\u{1f}".to_owned()]),
        [("ids".to_owned(), r#"["tab\there","é\u001f"]"#.to_owned())]
    );
    assert_eq!(projects_params(&vec![]), [("ids".to_owned(), "[]".to_owned())]);
}
