use cursor_bridge::text_stream::TextStream;

/// Feeds a segment's events and returns the text a client would render.
fn render(segments: &[&[&str]]) -> String {
    let mut ts = TextStream::new();
    let mut out = String::new();
    for seg in segments {
        for ev in *seg {
            if let Some(t) = ts.push(ev) {
                out.push_str(&t);
            }
        }
        if let Some(t) = ts.flush() {
            out.push_str(&t);
        }
    }
    out
}

#[test]
fn test_segment_recap_is_dropped() {
    // Deltas, then the recap repeating the whole segment.
    let out = render(&[&[
        "I",
        "'ll run that",
        " command",
        " for you.",
        "I'll run that command for you.",
    ]]);
    assert_eq!(out, "I'll run that command for you.");
}

#[test]
fn test_recap_dropped_in_every_segment_of_a_tool_turn() {
    // Text, tool call, more text: each segment ends with its own recap,
    // and the mid-turn recap is tagged exactly like a delta.
    let out = render(&[
        &["I", "'ll check.", "I'll check."],
        &["The", " answer is 4.", "The answer is 4."],
    ]);
    assert_eq!(out, "I'll check.The answer is 4.");
}

#[test]
fn test_single_event_without_deltas_is_emitted() {
    // An agent that streams no pieces sends only the recap.
    assert_eq!(render(&[&["the whole reply"]]), "the whole reply");
}

#[test]
fn test_repeated_text_is_not_mistaken_for_a_recap() {
    // "hi" twice mid-segment is real output, not a recap: only the event
    // that closes the segment is eligible to be dropped.
    assert_eq!(render(&[&["hi", "hi", "hihi"]]), "hihi");
}

#[test]
fn test_empty_turn_produces_nothing() {
    assert_eq!(render(&[&[]]), "");
}
