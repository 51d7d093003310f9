use nanoplan::track_cache::{cache_key, pack, unpack, url, BASE_URL, REVISION, SEPARATOR};
use nanoplan::tracks::{
    downloaded_track_ids, track_catalog, track_index, track_needs_catalog, TRACK_CATALOG_LEN,
};

#[test]
fn packed_cache_round_trips_all_tracks() {
    let tracks = track_catalog()
        .iter()
        .map(|track| track.file.to_string())
        .collect::<Vec<_>>();
    assert_eq!(unpack(&pack(&tracks)).unwrap(), tracks);
    assert_eq!(unpack("incomplete"), None);
    assert!(cache_key().contains(REVISION));
}

#[test]
fn catalog_ids_are_lowercase_and_unique() {
    let catalog = track_catalog();
    assert_eq!(catalog.len(), TRACK_CATALOG_LEN);
    for (index, track) in catalog.iter().enumerate() {
        assert!(track.id.bytes().all(|c| c.is_ascii_lowercase() || c == b'_'));
        assert!(!catalog[..index].iter().any(|other| other.id == track.id));
    }
    assert_eq!(downloaded_track_ids(), catalog.iter().map(|t| t.id).collect::<Vec<_>>());
    assert_eq!(catalog[0].id, "austin");
    assert_eq!(catalog[5].file, "IMS.csv");
    assert_eq!(catalog[23].name, "Zandvoort");
}

#[test]
fn cache_key_and_urls() {
    assert_eq!(cache_key(), format!("nanoplan.tracks.{REVISION}"));
    assert_eq!(
        url("Monza.csv"),
        "https://raw.githubusercontent.com/TUMFTM/racetrack-database/e59595d1f3573b30d1ded6a08984935b957688e0/tracks/Monza.csv"
    );
    assert!(url("x").starts_with(BASE_URL));
}

#[test]
fn pack_joins_with_the_separator() {
    let tracks = vec!["a".to_string(), "b".to_string(), "".to_string()];
    assert_eq!(pack(&tracks), format!("a{SEPARATOR}b{SEPARATOR}"));
    assert_eq!(pack(&[]), "");
    assert_eq!(pack(&["only".to_string()]), "only");
}

#[test]
fn unpack_requires_one_text_per_catalog_track() {
    let one_short: Vec<String> = (0..TRACK_CATALOG_LEN - 1).map(|i| format!("track {i}")).collect();
    assert_eq!(unpack(&pack(&one_short)), None);
    let exact: Vec<String> = (0..TRACK_CATALOG_LEN).map(|i| format!("x,y\n{i}")).collect();
    assert_eq!(unpack(&pack(&exact)), Some(exact.clone()));
    assert_eq!(unpack(""), None);
    // A text running into the separator that follows it is not separable.
    let mut bad = exact.clone();
    bad[0] = "\n--NANOPLAN-TRACK--".to_string();
    let recovered = unpack(&pack(&bad)).unwrap();
    assert_ne!(recovered, bad);
    assert_eq!(recovered[0], "");
}

#[test]
fn track_index_resolves_presets_and_catalog_names() {
    assert_eq!(
        track_index("generated", Ok(())),
        Err("generated track is not available for profiling".to_string())
    );
    assert_eq!(track_index("Large", Ok(())), Ok((1, "Test Track (large)".to_string())));
    assert_eq!(
        track_index("test_track_small", Err("offline".to_string())),
        Ok((2, "Test Track (small)".to_string()))
    );
    assert_eq!(track_index("Brands Hatch", Ok(())), Ok((4, "Brands Hatch".to_string())));
    assert_eq!(track_index("austin", Ok(())), Ok((3, "Austin".to_string())));
    assert_eq!(track_index("yas-marina", Ok(())), Ok((25, "Yas Marina".to_string())));
    assert_eq!(track_index("austin", Err("offline".to_string())), Err("offline".to_string()));
    assert_eq!(track_index("Nowhere \"x\"", Ok(())), Err("unknown track \"Nowhere \\\"x\\\"\"".to_string()));
}

#[test]
fn only_database_tracks_need_the_catalog() {
    assert!(!track_needs_catalog("generated"));
    assert!(!track_needs_catalog("LARGE"));
    assert!(!track_needs_catalog("test track small"));
    assert!(track_needs_catalog("monza"));
    assert!(track_needs_catalog("nowhere"));
}
