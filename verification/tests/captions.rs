use tikclip::captions::{
    check_generate_caption_input, collapse_spaces, generate_caption_text, transcript_snippet,
    validate_caption_update,
};

#[test]
fn generate_caption_text_uses_runtime_caption_fallbacks() {
    let caption = generate_caption_text(" @shop_abc ", "", "");

    assert_eq!(
        caption,
        "Live clip | Highlights from the stream | @shop_abc"
    );
}

#[test]
fn transcript_snippet_keeps_first_fourteen_words() {
    let transcript = "one two three four five six seven eight nine ten eleven twelve thirteen fourteen fifteen";

    assert_eq!(
        transcript_snippet(transcript, 14),
        "one two three four five six seven eight nine ten eleven twelve thirteen fourteen"
    );
}

#[test]
fn generate_caption_text_uses_title_and_transcript() {
    let caption = generate_caption_text("@@shop", "  hello   world ", "  Big   sale ");
    assert_eq!(caption, "Big sale | hello world | @shop");
    let nobody = generate_caption_text(" @ ", "x", "t");
    assert_eq!(nobody, "t | x | @creator");
}

#[test]
fn collapse_spaces_joins_words_with_single_spaces() {
    assert_eq!(collapse_spaces("  a \t b\n c  "), "a b c");
    assert_eq!(collapse_spaces("   "), "");
}

#[test]
fn caption_update_is_trimmed_and_validated() {
    let ok = validate_caption_update(Some("  nice clip "), " completed ", Some("  ")).unwrap();
    assert_eq!(ok.caption_text.as_deref(), Some("nice clip"));
    assert_eq!(ok.caption_status, "completed");
    assert_eq!(ok.caption_error, None);

    assert_eq!(
        validate_caption_update(None, "done", None).err().unwrap(),
        "Invalid caption_status: done"
    );
    assert_eq!(
        validate_caption_update(Some("   "), "completed", None).err().unwrap(),
        "caption_text is required when caption_status is completed"
    );
}

#[test]
fn generate_caption_input_needs_positive_id_and_username() {
    assert_eq!(check_generate_caption_input(0, "a").as_deref(), Some("clip_id must be positive"));
    assert_eq!(check_generate_caption_input(1, "  ").as_deref(), Some("username is required"));
    assert_eq!(check_generate_caption_input(1, "a"), None);
}
