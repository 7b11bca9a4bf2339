use benzaiten::domain::lyrics::parse_lyrics;
use benzaiten::domain::project::{LyricLine, MusicMetadata, Project, TimestampSource, CURRENT_SCHEMA_VERSION};
use benzaiten::lrc::writer;
use benzaiten::project::storage::{
    migrate_v1, schema_plan, schema_plan_of, upgrade_v2, validate, LyricLineV1, ProjectV1, SchemaPlan,
    TimestampSourceV1,
};

fn line(id: usize, text: &str, start_ms: Option<u64>) -> LyricLine {
    LyricLine {
        id,
        original_text: text.into(),
        reading_text: None,
        reading_source: None,
        start_ms,
        end_ms: None,
        confidence: Some(0.8f32.to_bits()),
        timestamp_source: Some(TimestampSource::LegacyAuto),
    }
}

#[test]
fn lyrics_parser_preserves_blank_and_trailing_rows() {
    let lines = parse_lyrics("\u{feff}first\r\n\nlast\n");
    assert_eq!(
        lines
            .iter()
            .map(|line| line.original_text.as_str())
            .collect::<Vec<_>>(),
        ["first", "", "last", ""]
    );
    assert_eq!(
        lines.iter().map(|line| line.id).collect::<Vec<_>>(),
        [0, 1, 2, 3]
    );
}

#[test]
fn lrc_uses_floor_centiseconds_and_skips_blank_rows() {
    let project = Project {
        title: "Song".into(),
        artist: "Artist".into(),
        lyrics: vec![
            line(0, "", None),
            line(1, "first", Some(60_019)),
            line(2, "second", Some(60_020)),
        ],
        ..Project::default()
    };
    assert_eq!(
        writer::render(&project).unwrap(),
        "[ti:Song]\n[ar:Artist]\n[01:00.01]first\n[01:00.02]second\n"
    );
}

#[test]
fn lrc_rejects_missing_or_reverse_timestamps_and_metadata_injection() {
    let mut project = Project {
        lyrics: vec![line(0, "one", Some(20)), line(1, "two", Some(10))],
        ..Project::default()
    };
    assert!(writer::render(&project).unwrap_err().contains("earlier"));
    project.lyrics[1].start_ms = None;
    assert!(writer::render(&project)
        .unwrap_err()
        .contains("no start timestamp"));
    project.title = "title\n[ar:injected]".into();
    assert!(writer::render(&project).unwrap_err().contains("newline"));
}

#[test]
fn lrc_rejects_a_line_break_inside_a_lyric() {
    let project = Project {
        lyrics: vec![line(3, "one\ntwo", Some(0))],
        ..Project::default()
    };
    assert_eq!(
        writer::render(&project).unwrap_err(),
        "lyric line 3 contains a newline"
    );
}

#[test]
fn lrc_of_an_empty_project_has_only_the_header() {
    let project = Project::default();
    assert_eq!(writer::render(&project).unwrap(), "[ti:]\n[ar:]\n");
}

#[test]
fn storage_rejects_invalid_timing() {
    let project = Project {
        lyrics: vec![LyricLine {
            end_ms: Some(9),
            ..line(0, "one", Some(10))
        }],
        ..Project::default()
    };
    assert!(validate(&project).is_err());
}

#[test]
fn validation_accepts_ordered_timing_and_rejects_bad_confidence() {
    let mut project = Project {
        lyrics: vec![LyricLine {
            end_ms: Some(20),
            ..line(0, "one", Some(10))
        }],
        ..Project::default()
    };
    assert!(validate(&project).is_ok());
    project.lyrics[0].confidence = Some(1.5f32.to_bits());
    assert!(validate(&project).is_err());
    project.lyrics[0].confidence = Some(f32::NAN.to_bits());
    assert!(validate(&project).is_err());
    project.lyrics[0].confidence = Some(0.0f32.to_bits());
    assert!(validate(&project).is_ok());
}

#[test]
fn schema_v1_project_is_migrated_without_losing_timing() {
    let legacy = ProjectV1 {
        title: "Legacy".into(),
        artist: "Artist".into(),
        audio_path: std::path::PathBuf::from("song.mp3"),
        lyrics: vec![LyricLineV1 {
            id: 4,
            text: "Hello".into(),
            start_ms: Some(1200),
            end_ms: Some(1800),
            confidence: Some(0.8f32.to_bits()),
            source: Some(TimestampSourceV1::Auto),
        }],
    };
    let project = migrate_v1(legacy);
    assert_eq!(project.schema_version, CURRENT_SCHEMA_VERSION);
    assert_eq!(project.lyrics[0].original_text, "Hello");
    assert_eq!(project.lyrics[0].reading_text, None);
    assert_eq!(project.lyrics[0].start_ms, Some(1200));
    assert_eq!(project.lyrics[0].end_ms, Some(1800));
    assert_eq!(
        project.lyrics[0].timestamp_source,
        Some(TimestampSource::LegacyAuto)
    );
}

#[test]
fn schema_v2_project_is_migrated_with_empty_music_metadata() {
    let project = Project {
        schema_version: 2,
        title: "Song".into(),
        ..Project::default()
    };
    let upgraded = upgrade_v2(project);
    assert_eq!(upgraded.schema_version, CURRENT_SCHEMA_VERSION);
    assert_eq!(upgraded.metadata, MusicMetadata::default());
    assert_eq!(upgraded.title, "Song");
}

#[test]
fn schema_versions_choose_the_reader() {
    assert!(matches!(schema_plan(Some(1), "p.json"), Ok(SchemaPlan::MigrateV1)));
    assert!(matches!(schema_plan(Some(2), "p.json"), Ok(SchemaPlan::UpgradeV2)));
    assert!(matches!(schema_plan(Some(3), "p.json"), Ok(SchemaPlan::Current)));
    assert!(matches!(
        schema_plan(Some(4), "p.json"),
        Err(e) if e == "unsupported project schema version 4; expected 3"
    ));
    assert!(matches!(
        schema_plan(None, "p.json"),
        Err(e) if e == "project file p.json has no schema version"
    ));
}

#[test]
fn the_schema_version_is_read_from_the_document_bytes() {
    assert_eq!(schema_plan_of(br#"{"schema_version":1}"#, "p.json"), Ok(SchemaPlan::MigrateV1));
    assert_eq!(schema_plan_of(br#"{"schema_version":2,"lyrics":[]}"#, "p.json"), Ok(SchemaPlan::UpgradeV2));
    assert_eq!(schema_plan_of(br#"{"schema_version":3}"#, "p.json"), Ok(SchemaPlan::Current));
    assert_eq!(
        schema_plan_of(br#"{"schema_version":"3"}"#, "p.json"),
        Err("project file p.json has no schema version".to_owned())
    );
    assert_eq!(
        schema_plan_of(br#"{"schema_version":9}"#, "p.json"),
        Err("unsupported project schema version 9; expected 3".to_owned())
    );
    let invalid = schema_plan_of(b"not json", "p.json").unwrap_err();
    assert!(invalid.starts_with("could not parse project file p.json: "));
}
