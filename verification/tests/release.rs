use on_chain_version_watcher::release::{
    first_of_channel, latest_darwinia_release_of, GitHubRelease, Version,
};
use on_chain_version_watcher::WatchError;

fn release(tag_name: &str, prerelease: bool, target_commitish: &str) -> GitHubRelease {
    GitHubRelease {
        prerelease,
        tag_name: tag_name.to_string(),
        target_commitish: target_commitish.to_string(),
    }
}

fn tag_and_spec(version: Result<Version, WatchError>) -> Result<(String, u32), WatchError> {
    version.map(|v| (v.tag, v.spec))
}

#[test]
fn first_release_of_the_channel_is_selected() {
    let releases = vec![
        release("v1.3.0", false, "main"),
        release("v1.2.0", false, "main"),
        release("v1.1.0", false, "main"),
    ];
    assert_eq!(
        tag_and_spec(latest_darwinia_release_of(&releases, None, false)),
        Ok(("v1.3.0".to_string(), 1300))
    );
}

#[test]
fn the_list_is_not_sorted_again() {
    let releases = vec![
        release("v1.1.0", false, "main"),
        release("v1.3.0", false, "main"),
    ];
    assert_eq!(
        tag_and_spec(latest_darwinia_release_of(&releases, None, false)),
        Ok(("v1.1.0".to_string(), 1100))
    );
}

#[test]
fn prerelease_is_skipped_on_the_stable_channel_wherever_it_stands() {
    let first = vec![
        release("koi-6700", true, "main"),
        release("v1.2.3", false, "main"),
    ];
    assert_eq!(
        tag_and_spec(latest_darwinia_release_of(&first, None, false)),
        Ok(("v1.2.3".to_string(), 1230))
    );
    let middle = vec![
        release("v1.2.4", false, "main"),
        release("koi-6700", true, "main"),
        release("v1.2.3", false, "main"),
    ];
    assert_eq!(
        tag_and_spec(latest_darwinia_release_of(&middle, None, false)),
        Ok(("v1.2.4".to_string(), 1240))
    );
    let only = vec![release("koi-6700", true, "main"), release("koi-6600", true, "main")];
    assert_eq!(
        tag_and_spec(latest_darwinia_release_of(&only, None, false)),
        Ok((String::new(), 0))
    );
}

#[test]
fn stable_release_is_skipped_on_the_prerelease_channel() {
    let releases = vec![
        release("v1.2.4", false, "main"),
        release("koi-6700", true, "main"),
        release("koi-6600", true, "main"),
    ];
    assert_eq!(
        tag_and_spec(latest_darwinia_release_of(&releases, None, true)),
        Ok(("koi-6700".to_string(), 6700))
    );
}

#[test]
fn branch_filter_selects_the_network() {
    let releases = vec![
        release("v1.2.4", false, "darwinia"),
        release("v1.2.3", false, "crab"),
        release("koi-6700", true, "koi"),
        release("v1.2.2", false, "crab"),
    ];
    assert_eq!(
        tag_and_spec(latest_darwinia_release_of(&releases, Some("crab"), false)),
        Ok(("v1.2.3".to_string(), 1230))
    );
    assert_eq!(
        tag_and_spec(latest_darwinia_release_of(&releases, Some("darwinia"), false)),
        Ok(("v1.2.4".to_string(), 1240))
    );
    assert_eq!(
        tag_and_spec(latest_darwinia_release_of(&releases, Some("koi"), true)),
        Ok(("koi-6700".to_string(), 6700))
    );
    assert_eq!(
        tag_and_spec(latest_darwinia_release_of(&releases, Some("koi"), false)),
        Ok((String::new(), 0))
    );
    assert_eq!(
        tag_and_spec(latest_darwinia_release_of(&releases, Some("cra"), false)),
        Ok((String::new(), 0))
    );
    assert_eq!(
        tag_and_spec(latest_darwinia_release_of(&releases, None, false)),
        Ok(("v1.2.4".to_string(), 1240))
    );
}

#[test]
fn no_release_gives_the_empty_version() {
    let nothing: Vec<GitHubRelease> = Vec::new();
    let version = latest_darwinia_release_of(&nothing, None, false).unwrap();
    assert_eq!(version.tag, "");
    assert_eq!(version.spec, 0);
    assert!(version.is_none());
    let version = latest_darwinia_release_of(&nothing, Some("crab"), true).unwrap();
    assert!(version.is_none());
    assert!(Version::none().is_none());
    assert!(!Version { spec: 0, tag: "v0.0.0".to_string() }.is_none());
    assert!(!Version { spec: 1, tag: String::new() }.is_none());
}

#[test]
fn malformed_first_release_fails_the_selection() {
    let releases = vec![
        release("nightly", false, "main"),
        release("v1.2.3", false, "main"),
    ];
    assert_eq!(
        tag_and_spec(latest_darwinia_release_of(&releases, None, false)),
        Err(WatchError::MalformedTag)
    );
    let releases = vec![
        release("v1.2.3", false, "main"),
        release("nightly", false, "main"),
    ];
    assert_eq!(
        tag_and_spec(latest_darwinia_release_of(&releases, None, false)),
        Ok(("v1.2.3".to_string(), 1230))
    );
    let releases = vec![release("koi-12x", true, "main"), release("koi-1234", true, "main")];
    assert_eq!(
        tag_and_spec(latest_darwinia_release_of(&releases, None, true)),
        Err(WatchError::MalformedTag)
    );
}

#[test]
fn out_of_range_first_release_fails_the_selection() {
    let releases = vec![
        release("v4294967296.0.0", false, "main"),
        release("v1.2.3", false, "main"),
    ];
    assert_eq!(
        tag_and_spec(latest_darwinia_release_of(&releases, None, false)),
        Err(WatchError::MalformedTag)
    );
}

#[test]
fn selection_is_repeatable() {
    let releases = vec![
        release("koi-6700", true, "koi"),
        release("v1.2.4", false, "darwinia"),
        release("v1.2.3", false, "crab"),
    ];
    for (branch, prerelease) in
        [(None, false), (None, true), (Some("crab"), false), (Some("koi"), true), (Some("x"), true)]
    {
        let first = tag_and_spec(latest_darwinia_release_of(&releases, branch, prerelease));
        let second = tag_and_spec(latest_darwinia_release_of(&releases, branch, prerelease));
        assert_eq!(first, second);
    }
}

#[test]
fn prerelease_suffix_is_taken_whole() {
    let releases = vec![release("koi-12345", true, "koi")];
    assert_eq!(
        tag_and_spec(latest_darwinia_release_of(&releases, Some("koi"), true)),
        Ok(("koi-12345".to_string(), 12345))
    );
    let releases = vec![release("koi-12", true, "koi"), release("koi-6700", true, "koi")];
    assert_eq!(
        tag_and_spec(latest_darwinia_release_of(&releases, Some("koi"), true)),
        Ok(("koi-12".to_string(), 12))
    );
    let releases = vec![release("koi-67001", true, "main")];
    assert_eq!(
        tag_and_spec(latest_darwinia_release_of(&releases, None, true)),
        Ok(("koi-67001".to_string(), 67001))
    );
}

#[test]
fn the_tag_of_the_answer_is_the_name_of_the_release() {
    for (name, prerelease, spec) in [
        ("v1.2.3", false, 1230u32),
        ("v1.2.3-1", false, 1231),
        ("v6.12.7-3", false, 7273),
        ("koi-1", true, 1),
        ("koi-1234", true, 1234),
        ("koi-4294967295", true, 4294967295),
    ] {
        let releases = vec![release(name, prerelease, "main"), release("later", prerelease, "main")];
        assert_eq!(
            tag_and_spec(latest_darwinia_release_of(&releases, None, prerelease)),
            Ok((name.to_string(), spec))
        );
    }
}

#[test]
fn name_that_is_not_exactly_a_tag_is_malformed() {
    for name in [
        "",
        "1.2.3",
        "v1.2",
        "v1.2.3.4",
        "v1.2.3-rc1",
        "v1.2.3-1-2",
        "darwinia v6.7.0",
        "release/v1.2.3-1 (hotfix)",
        "v1.0.0 then v2.0.0",
        "v1.2.3 ",
        "koi-1234",
        "v1.2.\u{0663}",
    ] {
        let releases = vec![release(name, false, "main"), release("v1.2.3", false, "main")];
        assert_eq!(
            tag_and_spec(latest_darwinia_release_of(&releases, None, false)),
            Err(WatchError::MalformedTag),
            "{}",
            name
        );
    }
    for name in ["", "koi", "koi-", "koi-12a4", "koi-1234 ", "testnet koi-6700", "v1.2.3"] {
        let releases = vec![release(name, true, "main"), release("koi-1234", true, "main")];
        assert_eq!(
            tag_and_spec(latest_darwinia_release_of(&releases, None, true)),
            Err(WatchError::MalformedTag),
            "{}",
            name
        );
    }
}

#[test]
fn releases_after_the_first_of_the_channel_have_no_say() {
    let head = vec![release("koi-6700", true, "koi"), release("v1.2.3", false, "crab")];
    let mut longer = vec![release("koi-6700", true, "koi"), release("v1.2.3", false, "crab")];
    longer.push(release("broken", false, "crab"));
    longer.push(release("v9.9.9", false, "crab"));
    assert_eq!(
        tag_and_spec(latest_darwinia_release_of(&head, Some("crab"), false)),
        tag_and_spec(latest_darwinia_release_of(&longer, Some("crab"), false))
    );
    assert_eq!(
        tag_and_spec(latest_darwinia_release_of(&longer, Some("crab"), false)),
        Ok(("v1.2.3".to_string(), 1230))
    );
}

#[test]
fn version_from_tag_decodes_the_whole_tag() {
    assert_eq!(
        tag_and_spec(Version::from_tag("v1.2.3".to_string(), false)),
        Ok(("v1.2.3".to_string(), 1230))
    );
    assert_eq!(
        tag_and_spec(Version::from_tag("koi-12345".to_string(), true)),
        Ok(("koi-12345".to_string(), 12345))
    );
    assert_eq!(
        tag_and_spec(Version::from_tag("darwinia v1.2.3".to_string(), false)),
        Err(WatchError::MalformedTag)
    );
    assert_eq!(
        tag_and_spec(Version::from_tag("v1.2".to_string(), false)),
        Err(WatchError::MalformedTag)
    );
    assert_eq!(
        tag_and_spec(Version::from_tag(String::new(), true)),
        Err(WatchError::MalformedTag)
    );
}

#[test]
fn first_of_channel_is_an_index_or_the_length() {
    let releases = vec![
        release("koi-6700", true, "koi"),
        release("v1.2.4", false, "darwinia"),
        release("v1.2.3", false, "crab"),
    ];
    assert_eq!(first_of_channel(&releases, None, true), 0);
    assert_eq!(first_of_channel(&releases, None, false), 1);
    assert_eq!(first_of_channel(&releases, Some("crab"), false), 2);
    assert_eq!(first_of_channel(&releases, Some("crab"), true), 3);
    assert_eq!(first_of_channel(&Vec::new(), None, false), 0);
    assert!(releases[2].is_eligible(Some("crab"), false));
    assert!(releases[2].is_eligible(None, false));
    assert!(!releases[2].is_eligible(Some("koi"), false));
    assert!(!releases[2].is_eligible(None, true));
}

#[test]
fn latest_darwinia_release_of_should_work() {
    let darwinia = vec![
        release("koi-6700", true, "main"),
        release("v6.7.0", false, "main"),
        release("v6.6.5", false, "main"),
    ];
    let darwinia_release = vec![
        release("koi-6700", true, "koi"),
        release("v6.7.0", false, "crab"),
        release("v6.6.5", false, "darwinia"),
    ];
    let version = latest_darwinia_release_of(&darwinia, None, false).unwrap();

    println!("latest release of darwinia is {version:?}");
    assert_eq!(version.spec, 6700);

    let version = latest_darwinia_release_of(&darwinia, None, true).unwrap();

    println!("latest prerelease of darwinia is {version:?}");
    assert_eq!(version.spec, 6700);
    assert_eq!(version.tag, "koi-6700");

    let version = latest_darwinia_release_of(&darwinia_release, Some("crab"), false).unwrap();

    println!("latest release of darwinia-release is {version:?}");
    assert_eq!(version.tag, "v6.7.0");

    let version = latest_darwinia_release_of(&darwinia_release, Some("darwinia"), false).unwrap();

    println!("latest release of darwinia-release is {version:?}");
    assert_eq!(version.tag, "v6.6.5");
    assert_eq!(version.spec, 6650);

    let version = latest_darwinia_release_of(&darwinia_release, Some("koi"), true).unwrap();

    println!("latest prerelease of darwinia-release is {version:?}");
    assert_eq!(version.tag, "koi-6700");
}
