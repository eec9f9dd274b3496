use ddagrab_proxy::deploy::{
    extract_step, fetch, install, select_asset, Asset, ExtractStep, FetchStep, Refusal,
};

fn assets(names: &[&str]) -> Vec<Asset> {
    names
        .iter()
        .map(|name| Asset { name: name.to_string(), browser_download_url: format!("https://x/{name}") })
        .collect()
}

#[test]
fn the_first_fitting_asset_is_taken() {
    let list = assets(&[
        "checksums.sha256",
        "ffmpeg-master-latest-linux64-lgpl-shared.tar.xz",
        "ffmpeg-master-latest-win64-lgpl-shared.zip.sig",
        "ffmpeg-master-latest-win64-lgpl-shared.zip",
        "ffmpeg-n7.1-latest-win64-lgpl-shared-7.1.zip",
    ]);
    assert_eq!(select_asset(&list), Some(3));
    assert_eq!(select_asset(&assets(&["ffmpeg-win64-gpl-shared.zip"])), None);
    assert_eq!(select_asset(&Vec::new()), None);
}

#[test]
fn downloads_are_skipped() {
    assert_eq!(fetch(true, false, None), FetchStep::Skip);
    assert_eq!(fetch(true, true, None), FetchStep::Download);
    assert_eq!(fetch(false, false, None), FetchStep::Download);
    assert_eq!(fetch(false, true, None), FetchStep::Download);
}

#[test]
fn an_existing_build_goes_only_after_the_download() {
    for force in [false, true] {
        for exists in [false, true] {
            assert_ne!(fetch(exists, force, None), FetchStep::RemoveExisting);
            assert_eq!(fetch(exists, force, Some(false)), FetchStep::GiveUp);
        }
        assert_eq!(fetch(true, force, Some(true)), FetchStep::RemoveExisting);
        assert_eq!(fetch(false, force, Some(true)), FetchStep::Extract);
    }
}

fn path(parts: &[&str]) -> Vec<String> {
    parts.iter().map(|s| s.to_string()).collect()
}

#[test]
fn the_top_directory_is_left_out() {
    assert!(matches!(extract_step(&path(&["ffmpeg-7"]), true), ExtractStep::Skip));
    assert!(matches!(extract_step(&path(&[]), false), ExtractStep::Skip));
    match extract_step(&path(&["ffmpeg-7", "bin"]), true) {
        ExtractStep::MakeDir(p) => assert_eq!(p, vec!["bin"]),
        other => panic!("{other:?}"),
    }
    match extract_step(&path(&["ffmpeg-7", "bin", "avfilter-12.dll"]), false) {
        ExtractStep::WriteFile(p) => assert_eq!(p, vec!["bin", "avfilter-12.dll"]),
        other => panic!("{other:?}"),
    }
}

#[test]
fn nothing_is_installed_without_a_build() {
    let plan = install(false, false, true);
    assert!(!plan.rename);
    assert_eq!(plan.copy, Err(Refusal::NotFetched));
}

#[test]
fn the_first_installation_renames() {
    let plan = install(true, false, true);
    assert!(plan.rename);
    assert_eq!(plan.copy, Ok(()));
}

#[test]
fn later_installations_only_copy() {
    for real in [true, false] {
        let plan = install(real, true, true);
        assert!(!plan.rename);
        assert_eq!(plan.copy, Ok(()));
    }
}

#[test]
fn a_missing_proxy_is_refused() {
    let plan = install(true, false, false);
    assert!(plan.rename);
    assert_eq!(plan.copy, Err(Refusal::NoProxy));
    assert_eq!(install(true, true, false).copy, Err(Refusal::NoProxy));
}
