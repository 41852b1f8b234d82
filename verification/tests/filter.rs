use line_bridge::filter::{
    clean_for_stream, filter_for_line, strip_ansi, strip_tool_narration, LINE_MAX_CHARS, NOTICE,
    TRUNCATE_AT,
};

#[test]
fn passthrough_when_short() {
    assert_eq!(filter_for_line("hello"), "hello");
}

#[test]
fn trims_surrounding_whitespace() {
    assert_eq!(filter_for_line("\n  hello\n\n"), "hello");
}

#[test]
fn truncates_long_text_with_notice() {
    let body = "x".repeat(6_000);
    let out = filter_for_line(&body);
    assert!(out.ends_with("open thClaws to read in full]"));
    assert!(out.chars().count() < LINE_MAX_CHARS);
    assert!(out.chars().count() > TRUNCATE_AT);
}

#[test]
fn strips_real_ansi_csi_sequences() {
    let input = "\x1b[2m[tool: Read /tmp/x]\x1b[0m\nThe answer is 42.";
    assert_eq!(filter_for_line(input), "The answer is 42.");
}

#[test]
fn drops_tool_bullet_lines() {
    let input = "⏺ Read(/path/to/x.rs)\nThe file contains foo.";
    assert_eq!(filter_for_line(input), "The file contains foo.");
}

#[test]
fn drops_wrench_emoji_tool_narration() {
    let input = "🔧 [Bash]\nDone.";
    assert_eq!(filter_for_line(input), "Done.");
}

#[test]
fn drops_multiple_tool_narration_lines() {
    // Two Bash calls in a turn: both lines are stripped.
    let input = "🔧 [Bash]\n🔧 [Bash]\nลบแล้ว";
    assert_eq!(filter_for_line(input), "ลบแล้ว");
}

#[test]
fn drops_lone_check_lines() {
    let input = "Looking at the code…\n✓\nIt all checks out.";
    assert_eq!(
        filter_for_line(input),
        "Looking at the code…\nIt all checks out."
    );
}

#[test]
fn preserves_user_typed_bracket_notation() {
    let input = "The escape sequence is [2m] — read more here.";
    assert_eq!(
        filter_for_line(input),
        "The escape sequence is [2m] — read more here."
    );
}

#[test]
fn ansi_strip_keeps_unicode_intact() {
    let input = "\x1b[33mสวัสดีครับ\x1b[0m — done.";
    assert_eq!(filter_for_line(input), "สวัสดีครับ — done.");
}

#[test]
fn truncation_is_char_boundary_safe_for_thai() {
    let body = "ก".repeat(5_000);
    let out = filter_for_line(&body);
    assert!(out.ends_with("open thClaws to read in full]"));
    let thai_count = out.chars().filter(|c| *c == 'ก').count();
    assert_eq!(thai_count, TRUNCATE_AT);
}

#[test]
fn truncation_begins_behind_the_limit() {
    let exact = "a".repeat(TRUNCATE_AT);
    assert_eq!(filter_for_line(&exact), exact);
    let over = "a".repeat(TRUNCATE_AT + 1);
    assert_eq!(filter_for_line(&over), format!("{exact}{NOTICE}"));
}

#[test]
fn ansi_edge_cases() {
    // An operating system command ends at BEL, and at nothing else.
    assert_eq!(strip_ansi("a\x1b]0;title\x07b"), "ab");
    assert_eq!(strip_ansi("a\x1b]0;title\x1b\\b"), "a");
    // A control sequence ends at its final byte, or not at all.
    assert_eq!(strip_ansi("a\x1b[38;5;1mb\x1b[K"), "ab");
    assert_eq!(strip_ansi("a\x1b[1;2"), "a");
    // Another escape is dropped alone.
    assert_eq!(strip_ansi("a\x1bZb\x1b"), "aZb");
    assert_eq!(strip_ansi("\x1b\x1b[1mx"), "x");
    assert_eq!(strip_ansi(""), "");
}

#[test]
fn narration_edge_cases() {
    assert_eq!(strip_tool_narration(""), "\n");
    assert_eq!(strip_tool_narration("a\n\nb"), "a\n\nb\n");
    assert_eq!(strip_tool_narration("  \t🛠️ x\na"), "a\n");
    assert_eq!(strip_tool_narration("🛠 x\n🔨 y\na"), "a\n");
    assert_eq!(strip_tool_narration("[tool: A]\n[tool B]\n[toolbox]"), "[toolbox]\n");
    assert_eq!(strip_tool_narration("✓ ×3\n  ✓\n✓ done\n✓ "), "✓ done\n✓ \n");
    assert_eq!(strip_tool_narration("see 🔧 here"), "see 🔧 here\n");
}

#[test]
fn streamed_text_is_neither_trimmed_nor_cut() {
    assert_eq!(clean_for_stream("  \x1b[1mhi\x1b[0m \n⏺ Read"), "  hi \n");
    let long = "y".repeat(6_000);
    assert_eq!(clean_for_stream(&long), format!("{long}\n"));
}

#[test]
fn filtered_text_has_no_escape_and_fits() {
    let body = format!("\x1b[1m{}\x1b", "z\x1b[0m ".repeat(3_000));
    let out = filter_for_line(&body);
    assert!(!out.contains('\x1b'));
    assert!(out.chars().count() < LINE_MAX_CHARS);
    assert_eq!(out.trim(), out);
}

#[test]
fn stripping_laws_on_an_example() {
    let a = "x\x1b[1my\n";
    let b = "\x1b]t\x07z";
    assert_eq!(strip_ansi(&format!("{a}{b}")), format!("{}{}", strip_ansi(a), strip_ansi(b)));
    let once = strip_ansi(a);
    assert_eq!(strip_ansi(&once), once);
    // A sequence that is split over two chunks does leak.
    assert_ne!(strip_ansi("\x1b[1m"), format!("{}{}", strip_ansi("\x1b"), strip_ansi("[1m")));
}

#[test]
fn narration_laws_on_an_example() {
    assert_eq!(
        strip_tool_narration("a\n⏺ x\nb"),
        format!("{}{}", strip_tool_narration("a"), strip_tool_narration("b"))
    );
    assert_eq!(strip_tool_narration("a\n⏺ x\nb"), strip_tool_narration("a\nb"));
}

#[test]
fn stream_law_on_an_example() {
    let a = "\x1b[1mx\x1b[0m\n⏺ y";
    let b = "z\x1b[K";
    assert_eq!(
        clean_for_stream(&format!("{a}\n{b}")),
        format!("{}{}", clean_for_stream(a), clean_for_stream(b))
    );
}
