use ovd_transcribe::blocks::{
    build_system_prompt, build_user_prompt, parse_glossary, plan_blocks, BlockContext,
};
use ovd_transcribe::config::TranslationSettings;
use ovd_transcribe::validate::{
    check_numeric_fidelity, extract_numbers, validate_block_response, TranslationItem,
    ValidationError,
};

fn item(id: usize, zh: &str) -> TranslationItem {
    TranslationItem { id, zh: zh.to_string() }
}

#[test]
fn accepts_a_response_that_matches_ids_order_and_non_empty_text() {
    let response = vec![item(1, "一。"), item(2, "二。"), item(3, "三。")];

    assert_eq!(validate_block_response(&[1, 2, 3], &response), Ok(()));
}

#[test]
fn rejects_a_missing_id() {
    let response = vec![item(1, "一。"), item(3, "三。")];

    assert_eq!(
        validate_block_response(&[1, 2, 3], &response),
        Err(ValidationError::MissingId(2))
    );
}

#[test]
fn rejects_out_of_order_ids() {
    let response = vec![item(2, "二。"), item(1, "一。"), item(3, "三。")];

    assert_eq!(
        validate_block_response(&[1, 2, 3], &response),
        Err(ValidationError::OutOfOrder { expected: 1, found: 2 })
    );
}

#[test]
fn rejects_an_empty_translation() {
    let response = vec![item(1, "一。"), item(2, "   "), item(3, "三。")];

    assert_eq!(
        validate_block_response(&[1, 2, 3], &response),
        Err(ValidationError::EmptyTranslation(2))
    );
}

#[test]
fn rejects_unexpected_and_duplicate_ids() {
    assert_eq!(
        validate_block_response(&[1, 2], &[item(1, "一。"), item(2, "二。"), item(9, "九。")]),
        Err(ValidationError::UnexpectedId(9))
    );
    assert_eq!(
        validate_block_response(&[1, 2, 3], &[item(1, "一。"), item(1, "一。"), item(3, "三。")]),
        Err(ValidationError::MissingId(2))
    );
}

#[test]
fn wrong_item_count_is_reported_when_every_id_is_present() {
    let result = validate_block_response(&[1], &[item(1, "一。"), item(1, "一。")]);

    assert_eq!(result, Err(ValidationError::WrongItemCount { expected: 1, found: 2 }));
}

#[test]
fn validation_errors_render_their_ids() {
    assert!(ValidationError::MissingId(2).message().contains('2'));
    assert!(ValidationError::UnexpectedId(9).message().contains('9'));
}

#[test]
fn extraction_keeps_separators_percent_and_order() {
    assert_eq!(
        extract_numbers("In 2024, 2,024 people and 3.5% growth, plus 90% again"),
        vec!["2024", "2,024", "3.5%", "90%"]
    );
    assert_eq!(extract_numbers("no numbers here"), Vec::<String>::new());
}

#[test]
fn fidelity_flags_a_missing_number_only() {
    let source = "In 2024 growth was 90% for the team.";
    assert!(check_numeric_fidelity(source, "2024 年团队增长了 90%。", &[]).is_empty());
    assert_eq!(check_numeric_fidelity(source, "2024 年团队增长了。", &[]), vec!["90%"]);
}

#[test]
fn fidelity_tolerates_spacing_full_width_and_thousands_separators() {
    let source = "2,024 users and 90% uptime";
    assert!(check_numeric_fidelity(source, "2,024 位用户，90 ％ 可用性", &[]).is_empty());
    assert!(check_numeric_fidelity(source, "2024 位用户，90% 可用性", &[]).is_empty());
}

#[test]
fn fidelity_does_not_accept_a_number_inside_a_longer_one() {
    let source = "about 90% of them";

    assert_eq!(check_numeric_fidelity(source, "大约 190% 的人", &[]), vec!["90%"]);
}

#[test]
fn fidelity_accepts_a_glossary_mapping_of_the_number() {
    let glossary = vec![("90 percent".to_string(), "百分之九十".to_string())];

    assert!(check_numeric_fidelity("90 percent of people", "百分之九十的人", &glossary).is_empty());
    assert_eq!(check_numeric_fidelity("90 percent of people", "九成的人", &glossary), vec!["90"]);
}

fn paragraphs(count: usize, chars: usize) -> Vec<String> {
    (0..count)
        .map(|index| format!("{}{index}", "x".repeat(chars.saturating_sub(1))))
        .collect()
}

fn settings(max_segments: u32, max_chars: u32) -> TranslationSettings {
    TranslationSettings {
        max_segments_per_block: max_segments,
        max_chars_per_block: max_chars,
        ..TranslationSettings::default()
    }
}

#[test]
fn splits_on_the_segment_limit() {
    let blocks = plan_blocks(&paragraphs(7, 10), &settings(3, 10_000));

    assert_eq!(blocks.len(), 3);
    assert_eq!(blocks[0].ids(), vec![0, 1, 2]);
    assert_eq!(blocks[1].ids(), vec![3, 4, 5]);
    assert_eq!(blocks[2].ids(), vec![6]);
    assert_eq!(blocks[1].paragraph_range, 3..6);
    assert_eq!(blocks[1].index, 1);
}

#[test]
fn splits_on_the_character_limit() {
    let blocks = plan_blocks(&paragraphs(4, 10), &settings(100, 25));

    assert_eq!(blocks.len(), 2);
    assert_eq!(blocks[0].ids(), vec![0, 1]);
    assert_eq!(blocks[1].ids(), vec![2, 3]);
}

#[test]
fn a_single_oversized_paragraph_still_gets_its_own_block() {
    let source = vec!["x".repeat(5_000), "short".into()];
    let blocks = plan_blocks(&source, &settings(6, 3_000));

    assert_eq!(blocks.len(), 2);
    assert_eq!(blocks[0].ids(), vec![0]);
    assert_eq!(blocks[0].chars(), 5_000);
    assert_eq!(blocks[1].ids(), vec![1]);
}

#[test]
fn zero_limits_never_create_empty_or_unbounded_blocks() {
    let blocks = plan_blocks(&paragraphs(3, 4), &settings(0, 0));

    assert_eq!(blocks.len(), 3);
    for (index, block) in blocks.iter().enumerate() {
        assert_eq!(block.ids(), vec![index]);
    }
}

#[test]
fn an_empty_transcript_has_no_blocks() {
    assert!(plan_blocks(&[], &settings(6, 3_000)).is_empty());
}

#[test]
fn blocks_tile_the_paragraphs_in_order() {
    let source = paragraphs(11, 7);
    let blocks = plan_blocks(&source, &settings(4, 20));
    let ids: Vec<usize> = blocks.iter().flat_map(|block| block.ids()).collect();

    assert_eq!(ids, (0..11).collect::<Vec<_>>());
    for (index, block) in blocks.iter().enumerate() {
        assert_eq!(block.index, index);
        assert!(block.items.len() <= 4);
        assert!(block.chars() <= 20 || block.items.len() == 1);
    }
}

#[test]
fn glossary_parsing_skips_malformed_lines_and_keeps_the_first_equals() {
    let glossary = parse_glossary(
        "  neural network = 神经网络 \n\nbroken line\n=empty source\nempty target=\nAPI=a=b\n",
    );

    assert_eq!(
        glossary,
        vec![
            ("neural network".to_string(), "神经网络".to_string()),
            ("API".to_string(), "a=b".to_string()),
        ]
    );
}

#[test]
fn system_prompt_carries_rules_glossary_and_json_contract() {
    let mut settings = settings(6, 3_000);
    settings.glossary = "neural network=神经网络".into();
    let prompt = build_system_prompt(&settings);

    assert!(prompt.contains("Simplified Chinese"));
    assert!(prompt.contains("never add, omit, summarise"));
    assert!(prompt.contains("Remove filler words"));
    assert!(prompt.contains("neural network = 神经网络"));
    assert!(prompt.contains("\"translations\""));
}

#[test]
fn drop_fillers_toggle_changes_the_prompt() {
    let mut settings = settings(6, 3_000);
    settings.drop_fillers = false;

    assert!(!build_system_prompt(&settings).contains("Remove filler words"));
}

#[test]
fn user_prompt_lists_ids_and_the_previous_context() {
    let paragraphs = vec!["First.".to_string(), "Second.".to_string(), "Third.".to_string()];
    let translations = vec!["第一。".to_string(), "第二。".to_string()];
    let blocks = plan_blocks(&paragraphs, &settings(1, 100));
    let context = BlockContext::before(&blocks[2], &paragraphs, &translations);
    let prompt = build_user_prompt(&blocks[2], &context);

    assert_eq!(context.previous.len(), 2);
    assert_eq!(context.previous[0].source, "First.");
    assert_eq!(context.previous[1].translation, "第二。");
    assert!(prompt.contains("[2] Third."));
    assert!(prompt.contains("source: First."));
    assert!(prompt.contains("translation: 第二。"));
}

#[test]
fn context_before_the_first_block_is_empty() {
    let paragraphs = vec!["First.".to_string()];
    let blocks = plan_blocks(&paragraphs, &settings(6, 3_000));
    let context = BlockContext::before(&blocks[0], &paragraphs, &[]);

    assert!(context.previous.is_empty());
}

#[test]
fn repeated_numbers_are_listed_once() {
    assert_eq!(extract_numbers("7 and 7 and 12 and 7"), vec!["7", "12"]);
    assert_eq!(check_numeric_fidelity("7 and 7 and 12", "没有数字", &[]), vec!["7", "12"]);
}

#[test]
fn a_response_passes_only_when_it_answers_item_for_item() {
    assert_eq!(validate_block_response(&[3, 4], &[item(3, "甲"), item(4, "乙")]), Ok(()));
    assert!(validate_block_response(&[3, 4], &[item(4, "乙"), item(3, "甲")]).is_err());
    assert!(validate_block_response(&[3, 4], &[item(3, "甲"), item(4, " ")]).is_err());
    assert!(validate_block_response(&[3, 4], &[item(3, "甲")]).is_err());
}

#[test]
fn fidelity_gaps_follow_source_order_and_a_larger_glossary_only_removes_them() {
    let source = "12 apples, 7 pears and 30 plums";
    assert_eq!(check_numeric_fidelity(source, "没有", &[]), vec!["12", "7", "30"]);
    let glossary = vec![("7 pears".to_string(), "七个梨".to_string())];
    assert_eq!(check_numeric_fidelity(source, "七个梨", &glossary), vec!["12", "30"]);
    for number in extract_numbers("a1 b22.5 c3,000%") {
        assert!(number.chars().next().is_some_and(|c| c.is_ascii_digit()));
    }
}
