use mm_ui::corpus::Track;
use mm_ui::shared::quality_resolution::{
    analyze_quality, generate_stash_changes, get_resolution_options, tracks_to_stash, BitrateTier, ChangeStatus, ChangeType, QualityResolutionOption, QualityResolutionState, QualityTier, TrackQualityInfo,
};

fn make_track(id: i64, file_type: &str, bitrate: Option<i32>) -> Track {
    Track {
        id: Some(id),
        path: format!("/test/track_{}.{}", id, file_type),
        source: "corpus".to_string(),
        inode: id,
        file_size: 1000,
        file_type: file_type.to_string(),
        artist: Some("Test Artist".to_string()),
        album: Some("Test Album".to_string()),
        album_artist: None,
        title: Some(format!("Track {}", id)),
        track_number: Some(id as i32),
        genre: None,
        duration_ms: Some(180000),
        bitrate_kbps: bitrate,
        sample_rate: Some(44100),
        fingerprint: None,
        isrc: None,
    }
}

fn mixed() -> Vec<Track> {
    vec![
        make_track(1, "flac", Some(1000)),
        make_track(2, "mp3", Some(320)),
        make_track(3, "mp3", Some(128)),
    ]
}

#[test]
fn test_quality_tier_ordering() {
    assert!(QualityTier::Lossless > QualityTier::HighQualityLossy);
    assert!(QualityTier::HighQualityLossy > QualityTier::LegacyLossy);
}

#[test]
fn test_quality_analysis_mixed_formats() {
    let tracks = vec![
        make_track(1, "flac", Some(1000)),
        make_track(2, "mp3", Some(320)),
        make_track(3, "mp3", Some(128)),
    ];

    let analysis = analyze_quality(&tracks);

    assert!(analysis.has_quality_differences);
    assert_eq!(analysis.file_types.len(), 2);
    assert_eq!(analysis.max_bitrate, Some(1000));
    assert_eq!(analysis.min_bitrate, Some(128));
}

#[test]
fn test_resolution_options_generation() {
    let tracks = vec![
        make_track(1, "flac", Some(1000)),
        make_track(2, "mp3", Some(320)),
        make_track(3, "mp3", Some(128)),
    ];

    let analysis = analyze_quality(&tracks);
    let options = get_resolution_options(&analysis);

    // Should have options for stashing lower bitrates and mp3 files
    assert!(!options.is_empty());
}

#[test]
fn options_are_the_lower_bitrates_and_all_but_the_best_type() {
    let analysis = analyze_quality(&mixed());
    let options = get_resolution_options(&analysis);
    assert_eq!(
        options,
        vec![
            QualityResolutionOption::StashLowerBitrates { track_count: 2, threshold: 1000 },
            QualityResolutionOption::StashFileType {
                file_type: "mp3".to_string(),
                track_count: 2,
                tier: QualityTier::LegacyLossy,
            },
        ]
    );
    assert_eq!(options[0].label(), "Stash lower bitrates (<1000 kbps) [2 tracks]");
    assert_eq!(options[1].label(), "Stash MP3 [2 tracks]");
    assert_eq!(options[0].short_label(), "Stash lower bitrates");
    assert_eq!(options[1].short_label(), "Stash MP3");
    let below = QualityResolutionOption::StashBelowTier { tier: BitrateTier::High, track_count: 1 };
    assert_eq!(below.label(), "Stash 256-320 kbps [1 tracks]");
}

#[test]
fn tiers_of_types_and_bitrates() {
    assert_eq!(QualityTier::from_file_type("FLAC"), QualityTier::Lossless);
    assert_eq!(QualityTier::from_file_type("Opus"), QualityTier::HighQualityLossy);
    assert_eq!(QualityTier::from_file_type("wma"), QualityTier::LegacyLossy);
    assert_eq!(QualityTier::from_file_type("xyz"), QualityTier::LegacyLossy);
    assert_eq!(QualityTier::Lossless.name(), "Lossless");
    for (kbps, tier) in [
        (-1, BitrateTier::VeryLow),
        (127, BitrateTier::VeryLow),
        (128, BitrateTier::Low),
        (191, BitrateTier::Low),
        (192, BitrateTier::Medium),
        (255, BitrateTier::Medium),
        (256, BitrateTier::High),
        (320, BitrateTier::High),
        (321, BitrateTier::VeryHigh),
    ] {
        assert_eq!(BitrateTier::from_bitrate(kbps), tier);
    }
}

#[test]
fn bitrates_fall_and_stand_once() {
    let mut tracks = mixed();
    tracks.push(make_track(4, "FLAC", Some(320)));
    tracks.push(make_track(5, "flac", None));
    let analysis = analyze_quality(&tracks);
    assert_eq!(analysis.bitrates, vec![1000, 320, 128]);
    assert_eq!(analysis.file_types, vec!["flac".to_string(), "mp3".to_string()]);
    assert_eq!(analysis.tracks_by_type[0].tracks.len(), 3);
    let tiers: Vec<(BitrateTier, usize)> =
        analysis.tracks_by_bitrate_tier.iter().map(|g| (g.tier, g.tracks.len())).collect();
    assert_eq!(
        tiers,
        vec![(BitrateTier::Low, 1), (BitrateTier::High, 2), (BitrateTier::VeryHigh, 1)]
    );
}

#[test]
fn spread_of_bitrates_decides_for_one_type() {
    let near = vec![make_track(1, "mp3", Some(320)), make_track(2, "mp3", Some(224))];
    assert!(!analyze_quality(&near).has_quality_differences);
    let far = vec![make_track(1, "mp3", Some(320)), make_track(2, "mp3", Some(223))];
    assert!(analyze_quality(&far).has_quality_differences);
    let none = vec![make_track(1, "mp3", None)];
    let analysis = analyze_quality(&none);
    assert!(!analysis.has_quality_differences);
    assert_eq!(analysis.max_bitrate, None);
    assert!(get_resolution_options(&analysis).is_empty());
    assert!(!QualityResolutionState::new(&analysis).has_options());
}

#[test]
fn stash_changes_name_target_and_reason() {
    let analysis = analyze_quality(&mixed());
    let option = QualityResolutionOption::StashFileType {
        file_type: "mp3".to_string(),
        track_count: 2,
        tier: QualityTier::LegacyLossy,
    };
    let changes = generate_stash_changes(&option, &analysis, "s1", "/stash", "quality");
    assert_eq!(changes.len(), 2);
    assert_eq!(changes[0].session_id, "s1");
    assert_eq!(changes[0].change_type, ChangeType::Delete);
    assert_eq!(changes[0].status, ChangeStatus::Pending);
    assert_eq!(changes[0].source_path, "/test/track_2.mp3");
    assert_eq!(changes[0].target_path.as_deref(), Some("/stash/quality/track_2.mp3"));
    assert_eq!(
        changes[1].metadata_changes.as_deref(),
        Some(
            "{\"option\":\"Stash MP3\",\"original_bitrate\":128,\"original_type\":\"mp3\",\"reason\":\"quality_resolution\"}"
        )
    );
}

#[test]
fn only_lower_tiers_are_stashed() {
    let mut tracks = mixed();
    tracks[2].bitrate_kbps = None;
    let analysis = analyze_quality(&tracks);
    let option = QualityResolutionOption::StashLowerBitrates { track_count: 1, threshold: 1000 };
    let stashed = tracks_to_stash(&option, &analysis);
    assert_eq!(stashed.len(), 1);
    assert_eq!(stashed[0].track_id, 2);
    let changes = generate_stash_changes(&option, &analysis, "", "root", "");
    assert_eq!(changes[0].target_path.as_deref(), Some("root/track_2.mp3"));
    let unknown = QualityResolutionOption::StashFileType {
        file_type: "ogg".to_string(),
        track_count: 0,
        tier: QualityTier::HighQualityLossy,
    };
    assert!(tracks_to_stash(&unknown, &analysis).is_empty());
}

#[test]
fn options_are_switched_on_and_off() {
    let mut state = QualityResolutionState::new(&analyze_quality(&mixed()));
    assert!(state.has_options());
    state.move_up();
    assert_eq!(state.cursor, 0);
    state.move_down();
    state.move_down();
    assert_eq!(state.cursor, 1);
    state.toggle_current();
    assert!(state.is_selected(1));
    assert_eq!(state.get_selected_options().len(), 1);
    state.toggle_current();
    assert!(state.get_selected_options().is_empty());
}

#[test]
fn track_without_number_counts_as_zero() {
    let mut track = make_track(7, "flac", None);
    track.id = None;
    let info = TrackQualityInfo::from(&track);
    assert_eq!(info.track_id, 0);
    assert_eq!(info.quality_tier, QualityTier::Lossless);
}

#[test]
fn lower_bitrates_of_one_tier_are_stashed_too() {
    let tracks = vec![make_track(1, "flac", Some(1000)), make_track(2, "flac", Some(400))];
    let analysis = analyze_quality(&tracks);
    let options = get_resolution_options(&analysis);
    assert_eq!(
        options,
        vec![QualityResolutionOption::StashLowerBitrates { track_count: 1, threshold: 1000 }]
    );
    assert_eq!(tracks_to_stash(&options[0], &analysis)[0].track_id, 2);
    let below = QualityResolutionOption::StashBelowTier { tier: BitrateTier::VeryHigh, track_count: 0 };
    assert!(tracks_to_stash(&below, &analysis).is_empty());
}

#[test]
fn the_type_that_is_kept_is_no_worse_than_any_other() {
    let tracks = vec![
        make_track(1, "opus", Some(128)),
        make_track(2, "flac", Some(900)),
        make_track(3, "mp3", Some(320)),
        make_track(4, "wav", Some(1411)),
    ];
    let offered: Vec<(String, QualityTier)> = get_resolution_options(&analyze_quality(&tracks))
        .into_iter()
        .filter_map(|o| match o {
            QualityResolutionOption::StashFileType { file_type, tier, .. } => Some((file_type, tier)),
            _ => None,
        })
        .collect();
    assert_eq!(
        offered,
        vec![
            ("mp3".to_string(), QualityTier::LegacyLossy),
            ("opus".to_string(), QualityTier::HighQualityLossy),
            ("flac".to_string(), QualityTier::Lossless),
        ]
    );
}
