use ovd_transcribe::artifacts::{
    assemble_zh_transcript, plan_skips, sanitize_directory_name, total_usage, zh_blocks_complete,
    ArtifactState, BlockTranslation, OutputPaths, SkipPlan, MAX_DIR_CHARS,
};
use ovd_transcribe::blocks::{Block, BlockItem};
use ovd_transcribe::deepseek::Usage;
use std::collections::BTreeMap;
use std::path::Path;

fn plan_block(index: usize, ids: Vec<usize>) -> Block {
    let first = ids.first().copied().unwrap_or_default();
    let last = ids.last().copied().unwrap_or(first);
    Block {
        index,
        paragraph_range: first..last + 1,
        items: ids
            .into_iter()
            .map(|id| BlockItem { id, text: format!("paragraph {id}") })
            .collect(),
    }
}

#[test]
fn sanitize_directory_name_handles_illegal_reserved_and_long_titles() {
    assert_eq!(sanitize_directory_name("a/b:c*d?", false), "a_b_c_d_");
    assert_eq!(sanitize_directory_name("  Hello   World  ", false), "Hello   World");
    assert_eq!(sanitize_directory_name("Hello, World! 2024", true), "Hello_World_2024");
    assert_eq!(sanitize_directory_name("", false), "untitled");
    assert_eq!(sanitize_directory_name("CON", false), "_CON");
    assert_eq!(
        sanitize_directory_name(&"x".repeat(300), false).chars().count(),
        MAX_DIR_CHARS
    );
    assert_eq!(sanitize_directory_name("trailing... ", false), "trailing");
}

#[test]
fn reserved_names_match_in_any_case_and_with_digits() {
    assert_eq!(sanitize_directory_name("com7", false), "_com7");
    assert_eq!(sanitize_directory_name("Lpt1", false), "_Lpt1");
    assert_eq!(sanitize_directory_name("COM0", false), "COM0");
    assert_eq!(sanitize_directory_name("console", false), "console");
}

#[test]
fn a_cut_name_loses_trailing_fills_dots_and_spaces() {
    let title = format!("{}. _x", "a".repeat(118));
    let name = sanitize_directory_name(&title, false);

    assert_eq!(name, "a".repeat(118));
}

#[test]
fn control_characters_collapse_into_one_fill() {
    assert_eq!(sanitize_directory_name("a\u{1}\u{2}|b", false), "a_b");
    assert_eq!(sanitize_directory_name("???", false), "_");
}

#[test]
fn output_paths_use_the_fixed_deliverable_names() {
    let paths = OutputPaths::new(Path::new("/root"), "My Video", false);

    assert_eq!(paths.dir, Path::new("/root").join("My Video"));
    assert_eq!(paths.en, paths.dir.join("transcript.en.txt"));
    assert_eq!(paths.zh, paths.dir.join("transcript.zh.txt"));
    assert_eq!(paths.work, paths.dir.join(".work"));
    assert_eq!(paths.segments, paths.work.join("segments.json"));
    assert_eq!(paths.zh_blocks, paths.work.join("zh.blocks.json"));
    assert_eq!(paths.chunks, paths.work.join("chunks"));
    assert_eq!(paths.dir_name.as_deref(), Some("My Video"));
    assert_eq!(OutputPaths::for_dir(Path::new("/x").to_path_buf()).dir_name, None);
}

#[test]
fn skip_plan_covers_overwrite_existing_and_resume_cases() {
    let existing = ArtifactState {
        en_exists: true,
        zh_exists: true,
        segments_complete: true,
        blocks_complete: true,
    };
    assert_eq!(
        plan_skips(existing, false),
        SkipPlan { skip_all: true, skip_transcription: true, skip_translation: true }
    );
    assert_eq!(plan_skips(existing, true), SkipPlan::default());

    let partial = ArtifactState {
        en_exists: false,
        zh_exists: false,
        segments_complete: true,
        blocks_complete: true,
    };
    assert_eq!(
        plan_skips(partial, false),
        SkipPlan { skip_all: false, skip_transcription: true, skip_translation: true }
    );

    let segments_only = ArtifactState { segments_complete: true, ..ArtifactState::default() };
    assert_eq!(
        plan_skips(segments_only, false),
        SkipPlan { skip_all: false, skip_transcription: true, skip_translation: false }
    );

    let retranscribe = ArtifactState {
        en_exists: false,
        zh_exists: false,
        segments_complete: false,
        blocks_complete: true,
    };
    assert_eq!(plan_skips(retranscribe, false), SkipPlan::default());
}

fn stored_blocks() -> BTreeMap<usize, BlockTranslation> {
    let mut blocks = BTreeMap::new();
    blocks.insert(
        0,
        BlockTranslation {
            ids: vec![0, 1],
            zh: vec!["第一段。".into(), "第二段。".into()],
            usage: Usage { prompt_tokens: 10, completion_tokens: 5 },
        },
    );
    blocks.insert(
        1,
        BlockTranslation {
            ids: vec![2],
            zh: vec!["第三段。".into()],
            usage: Usage { prompt_tokens: 4, completion_tokens: 2 },
        },
    );
    blocks
}

#[test]
fn zh_blocks_completeness_assembly_and_usage() {
    let plan = vec![plan_block(0, vec![0, 1]), plan_block(1, vec![2])];
    let mut blocks = stored_blocks();

    assert!(zh_blocks_complete(&blocks, &plan));
    assert_eq!(
        assemble_zh_transcript(&plan, &blocks).expect("assemble"),
        "第一段。\n\n第二段。\n\n第三段。"
    );
    assert_eq!(total_usage(&blocks), Usage { prompt_tokens: 14, completion_tokens: 7 });

    blocks.remove(&1);
    assert!(!zh_blocks_complete(&blocks, &plan));
    assert!(assemble_zh_transcript(&plan, &blocks).is_none());
}

#[test]
fn a_blank_stored_text_is_not_reusable_but_still_assembles() {
    let plan = vec![plan_block(0, vec![0, 1])];
    let mut blocks = BTreeMap::new();
    blocks.insert(
        0,
        BlockTranslation {
            ids: vec![0, 1],
            zh: vec!["一".into(), "  ".into()],
            usage: Usage::default(),
        },
    );

    assert!(!zh_blocks_complete(&blocks, &plan));
    assert_eq!(assemble_zh_transcript(&plan, &blocks).as_deref(), Some("一\n\n  "));
}

#[test]
fn stale_blocks_with_mismatched_ids_are_rejected() {
    let plan = vec![plan_block(0, vec![0, 1])];
    let mut blocks = BTreeMap::new();
    blocks.insert(
        0,
        BlockTranslation {
            ids: vec![1, 0],
            zh: vec!["一".into(), "二".into()],
            usage: Usage::default(),
        },
    );

    assert!(!zh_blocks_complete(&blocks, &plan));
    assert!(assemble_zh_transcript(&plan, &blocks).is_none());
}

#[test]
fn usage_of_no_blocks_is_zero() {
    assert_eq!(total_usage(&BTreeMap::new()), Usage { prompt_tokens: 0, completion_tokens: 0 });
}
