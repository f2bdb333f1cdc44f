use std::collections::HashMap;
use std::path::PathBuf;

use rbx_switch::{personal_file_read, project_search_step, AliasFile, Config, ProjectSearch, Source};

/// An alias file as the binary reads it: the TOML text parsed by `toml`.
fn alias_file(body: &str) -> AliasFile {
    let table: HashMap<String, HashMap<String, u64>> = toml::from_str(body).unwrap();
    let aliases = table.get("aliases").cloned().unwrap_or_default();
    AliasFile { aliases: aliases.into_iter().collect() }
}

fn project(body: &str) -> Option<(PathBuf, AliasFile)> {
    Some((PathBuf::from("/work/game/rbxswitch.toml"), alias_file(body)))
}

fn home(body: &str) -> Option<(PathBuf, AliasFile)> {
    Some((PathBuf::from("/home/dev/.rbxswitch.toml"), alias_file(body)))
}

#[test]
fn neither_file_present_is_not_an_error() {
    let config = Config::from_alias_files(None, None);

    assert!(config.resolve_alias("dev").is_none());
    assert!(config.project_path().is_none());
    assert!(config.global_path().is_none());
}

#[test]
fn the_project_file_wins_over_the_personal_one() {
    let config = Config::from_alias_files(
        project("[aliases]\ndev = 222\n"),
        home("[aliases]\ndev = 111\n"),
    );

    assert_eq!(
        config.resolve_alias("dev"),
        Some(("222".to_string(), Source::Project)),
        "the project's name for an account must beat the personal one"
    );
}

#[test]
fn the_two_files_merge_rather_than_replace_each_other() {
    let config = Config::from_alias_files(
        project("[aliases]\ndev = 222\n"),
        home("[aliases]\nmain = 111\n"),
    );

    assert_eq!(
        config.resolve_alias("main"),
        Some(("111".to_string(), Source::Global)),
        "a personal alias the project does not mention must survive"
    );
    assert_eq!(
        config.resolve_alias("dev"),
        Some(("222".to_string(), Source::Project))
    );
}

#[test]
fn the_paths_of_the_files_read_are_kept() {
    let config = Config::from_alias_files(project("[aliases]\n"), None);
    assert_eq!(
        config.project_path(),
        Some(PathBuf::from("/work/game/rbxswitch.toml").as_path())
    );
    assert!(config.global_path().is_none());

    let config = Config::from_alias_files(None, home("[aliases]\n"));
    assert!(config.project_path().is_none());
    assert_eq!(
        config.global_path(),
        Some(PathBuf::from("/home/dev/.rbxswitch.toml").as_path())
    );
}

#[test]
fn a_file_without_aliases_adds_none() {
    let config = Config::from_alias_files(project(""), home("[aliases]\nmain = 7\n"));
    assert_eq!(
        config.resolve_alias("main"),
        Some(("7".to_string(), Source::Global))
    );
    assert!(config.resolve_alias("dev").is_none());
}

#[test]
fn alias_ids_render_in_decimal() {
    let config = Config::with_alias("zero", 0, Source::Global);
    assert_eq!(config.resolve_alias("zero"), Some(("0".to_string(), Source::Global)));

    let config = Config::with_alias("big", u64::MAX, Source::Project);
    assert_eq!(
        config.resolve_alias("big"),
        Some(("18446744073709551615".to_string(), Source::Project))
    );

    let config = Config::with_alias("dev", 9_876_543_210, Source::Project);
    assert_eq!(
        config.resolve_alias("dev"),
        Some(("9876543210".to_string(), Source::Project))
    );
    assert!(config.resolve_alias("Dev").is_none());
}

#[test]
fn a_later_occurrence_in_one_file_counts() {
    let file = AliasFile {
        aliases: vec![("dev".to_string(), 1), ("dev".to_string(), 2)],
    };
    let config = Config::from_alias_files(Some((PathBuf::from("p"), file)), None);
    assert_eq!(config.resolve_alias("dev"), Some(("2".to_string(), Source::Project)));
}

#[test]
fn sources_describe_themselves() {
    assert_eq!(Source::Project.describe(), "this project");
    assert_eq!(Source::Global.describe(), "your personal aliases");
}

#[test]
fn a_default_config_has_no_alias() {
    let config = Config::default();
    assert!(config.resolve_alias("dev").is_none());
    assert!(config.project_path().is_none());
    assert!(config.global_path().is_none());
}

#[test]
fn a_default_alias_file_is_empty() {
    assert!(AliasFile::default().aliases.is_empty());
}

/// The search as the binary runs it, over directories from the start upwards:
/// `holds_file[d]` says whether the directory `d` levels up holds the file.
fn search(holds_file: &[bool]) -> Option<usize> {
    let mut depth = 0;
    loop {
        let has_parent = depth + 1 < holds_file.len();
        match project_search_step(depth, holds_file[depth], has_parent) {
            ProjectSearch::Found(d) => return Some(d),
            ProjectSearch::Up(d) => depth = d,
            ProjectSearch::NotFound => return None,
        }
    }
}

#[test]
fn the_project_file_is_found_from_a_subdirectory() {
    // Started in `<checkout>/src/client`; the file is in `<checkout>`.
    assert_eq!(search(&[false, false, true, false]), Some(2));
    let config = Config::from_alias_files(
        Some((PathBuf::from("/work/game/rbxswitch.toml"), alias_file("[aliases]\ndev = 222\n"))),
        None,
    );
    assert_eq!(
        config.resolve_alias("dev"),
        Some(("222".to_string(), Source::Project)),
        "running from inside the checkout is the common case"
    );
}

#[test]
fn the_nearest_project_file_wins() {
    assert_eq!(search(&[false, true, true]), Some(1));
    assert_eq!(search(&[true, true]), Some(0));
    assert_eq!(search(&[false, false, false]), None);
    assert_eq!(search(&[false]), None);
}

#[test]
fn a_search_step_climbs_until_the_root() {
    assert_eq!(project_search_step(3, true, true), ProjectSearch::Found(3));
    assert_eq!(project_search_step(3, true, false), ProjectSearch::Found(3));
    assert_eq!(project_search_step(3, false, true), ProjectSearch::Up(4));
    assert_eq!(project_search_step(3, false, false), ProjectSearch::NotFound);
}

#[test]
fn no_home_directory_means_no_personal_file_and_not_a_local_one() {
    // A dotted file sits in the working directory, but no home is given.
    assert!(!personal_file_read(false, true));
    assert!(!personal_file_read(false, false));
    assert!(!personal_file_read(true, false));
    assert!(personal_file_read(true, true));

    let config = Config::from_alias_files(None, None);
    assert!(
        config.resolve_alias("dev").is_none(),
        "a dotted file in the working directory must never be read as the personal one"
    );
}
