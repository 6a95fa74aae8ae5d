use ovd_transcribe::chunks::{segment_id, ChunkingError, MergeError};
use ovd_transcribe::fetch::{
    expand_fetch_request, fetch_step, settle_group, FetchRequest, FetchResult, FetchStep, PlaylistEntry,
};
use ovd_transcribe::transcript::{format_paragraphs, speech_texts, SpeechSegment, PARAGRAPH_MAX_CHARS};

/// Speech segments of a run without long silences (blank texts carry no speech).
fn speech(texts: &[&str]) -> Vec<SpeechSegment> {
    let owned: Vec<String> = texts.iter().map(|text| text.to_string()).collect();
    let (_, speech) = speech_texts(&owned);
    speech.into_iter().map(|text| SpeechSegment { text, long_gap: false }).collect()
}

fn seg(text: &str, long_gap: bool) -> SpeechSegment {
    SpeechSegment { text: text.to_string(), long_gap }
}

#[test]
fn a_long_gap_starts_a_new_paragraph() {
    let transcript = format_paragraphs(&[seg("First.", false), seg("Second.", true)]);

    assert_eq!(transcript.paragraphs, vec!["First.", "Second."]);
    assert_eq!(transcript.text, "First.\n\nSecond.");
    assert_eq!(transcript.paragraph_count(), 2);
    assert_eq!(transcript.char_count(), 15);
}

#[test]
fn three_sentence_ends_close_a_paragraph() {
    let transcript = format_paragraphs(&[
        seg("One.", false),
        seg("Two!", false),
        seg("Three?", false),
        seg("Four", false),
        seg("five.", false),
    ]);

    assert_eq!(transcript.paragraphs, vec!["One. Two! Three?", "Four five."]);
}

#[test]
fn an_empty_transcript_stays_empty() {
    let transcript = format_paragraphs(&[]);

    assert!(transcript.paragraphs.is_empty());
    assert_eq!(transcript.text, "");
    assert_eq!(transcript.paragraph_count(), 0);
    assert_eq!(transcript.char_count(), 0);
}

#[test]
fn only_speech_segments_are_paragraphed() {
    let texts = vec!["  Hello ".to_string(), "   ".to_string(), "world.".to_string()];
    let (indices, speech) = speech_texts(&texts);

    assert_eq!(indices, vec![0, 2]);
    assert_eq!(speech, vec!["Hello", "world."]);
}

#[test]
fn chunk_errors_and_segment_ids() {
    assert_eq!(ChunkingError::InvalidDuration.message(), "audio duration must be positive and under 30 days");
    assert_eq!(
        MergeError::InvalidSegment { chunk_index: 1, segment_index: 4 }.message(),
        "segment 1:4: bad timestamps"
    );
    assert_eq!(MergeError::UnsortedChunks { chunk_index: 2 }.message(), "chunk 2: chunks must be in plan order");
    assert_eq!(segment_id(3, 12), "3:12");
}

#[test]
fn playlists_expand_into_one_fetch_per_video() {
    let entries = expand_fetch_request(FetchRequest::Playlist {
        group_id: "g".into(),
        entries: vec![
            PlaylistEntry { video_url: "https://v/1".into() },
            PlaylistEntry { video_url: "https://v/2".into() },
        ],
        overrides: Box::new(None),
    });
    assert_eq!(entries.len(), 2);
    assert_eq!(entries[1].url, "https://v/2");
    assert_eq!(entries[0].total, 2);
    assert_ne!(entries[0].id, entries[1].id);

    let single = expand_fetch_request(FetchRequest::Initial {
        group_id: "g".into(),
        id: "i".into(),
        url: "https://v/3".into(),
        overrides: Box::new(None),
    });
    assert_eq!(single.len(), 1);
    assert_eq!(single[0].id, "i");
    assert_eq!(single[0].total, 1);
    assert_eq!(settle_group(2), (1, false));
    assert_eq!(settle_group(1), (0, true));
}

#[test]
fn closes_a_paragraph_once_it_reaches_seven_hundred_rendered_characters() {
    let long = "a".repeat(350);
    let medium = "b".repeat(348);
    let full = "b".repeat(349);
    let tail = "c".repeat(10);

    let fits = format_paragraphs(&speech(&[&long, &medium, &tail]));
    assert_eq!(fits.paragraph_count(), 1);

    let split = format_paragraphs(&speech(&[&long, &full, &tail]));
    assert_eq!(split.paragraph_count(), 2);
    assert_eq!(split.paragraphs[1], tail);
    assert_eq!(split.char_count(), 350 + 1 + 349 + 2 + 10);
}

#[test]
fn closes_a_paragraph_after_three_sentence_final_segments() {
    let transcript = format_paragraphs(&speech(&["One.", "Two.", "Three.", "Four."]));

    assert_eq!(transcript.paragraphs, vec!["One. Two. Three.", "Four."]);
}

#[test]
fn keeps_a_paragraph_that_has_only_two_sentence_ends() {
    let transcript = format_paragraphs(&speech(&["One.", "Two.", "and more"]));

    assert_eq!(transcript.paragraph_count(), 1);
}

#[test]
fn a_continuation_after_three_sentence_ends_opens_the_next_paragraph() {
    let transcript =
        format_paragraphs(&speech(&["One.", "Two.", "Three.", "and more", "Four.", "Five."]));

    assert_eq!(transcript.paragraphs, vec!["One. Two. Three.", "and more Four. Five."]);
}

#[test]
fn only_the_final_character_decides_a_sentence_end() {
    let transcript = format_paragraphs(&speech(&["One.", "Two.", "Three.\"", "Four.", "Five."]));

    assert_eq!(transcript.paragraphs, vec!["One. Two. Three.\" Four.", "Five."]);
}

#[test]
fn keeps_segment_text_verbatim() {
    let transcript = format_paragraphs(&speech(&["  Hello   world . ", "Second  part"]));

    assert_eq!(transcript.text, "Hello   world . Second  part");
}

#[test]
fn skips_empty_segments_and_measures_gaps_from_the_last_non_empty_one() {
    let texts: Vec<String> = ["First.", "   ", "", "Second."].iter().map(|t| t.to_string()).collect();
    let (indices, speech) = speech_texts(&texts);
    assert_eq!(indices, vec![0, 3]);
    // Measured from `First.` (ending at 1.0 s), `Second.` (starting at 3.0 s) follows a
    // long silence.
    let segments: Vec<SpeechSegment> = speech
        .into_iter()
        .zip([false, true])
        .map(|(text, long_gap)| SpeechSegment { text, long_gap })
        .collect();
    let transcript = format_paragraphs(&segments);

    assert_eq!(transcript.paragraphs, vec!["First.", "Second."]);
}

#[test]
fn counts_unicode_scalars_and_keeps_text_consistent_with_paragraphs() {
    let long = "汉".repeat(PARAGRAPH_MAX_CHARS);
    let transcript = format_paragraphs(&speech(&[&long, "next"]));

    assert_eq!(transcript.paragraph_count(), 2);
    assert_eq!(transcript.char_count(), PARAGRAPH_MAX_CHARS + 2 + 4);
    assert_eq!(transcript.text, transcript.paragraphs.join("\n\n"));
}

#[test]
fn emoji_are_single_scalars_and_overlapping_segments_never_break() {
    let emoji = format_paragraphs(&speech(&[&"😀".repeat(PARAGRAPH_MAX_CHARS), "next"]));
    assert_eq!(emoji.paragraph_count(), 2);

    // Overlapping segments (the second starts before the first ends) have no silence
    // between them.
    let overlap = format_paragraphs(&speech(&["First.", "Second."]));
    assert_eq!(overlap.paragraph_count(), 1);
}

#[test]
fn fetch_results_decide_events_and_settling() {
    assert_eq!(fetch_step(FetchResult::Single, 3), FetchStep { add_total: Some(3), fatal: false, settle: true });
    assert_eq!(
        fetch_step(FetchResult::Playlist { entries: 7 }, 1),
        FetchStep { add_total: Some(7), fatal: false, settle: false }
    );
    assert_eq!(fetch_step(FetchResult::Livestream, 3), FetchStep { add_total: None, fatal: true, settle: true });
    assert_eq!(fetch_step(FetchResult::Nothing, 3), FetchStep { add_total: None, fatal: false, settle: false });
}
