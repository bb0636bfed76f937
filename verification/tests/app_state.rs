use stem::app_state::error_context;

/// The parse error context stays small and lands on the error position.
#[test]
fn error_context_window() {
    let input = "{\"a\":1,\n\"b\":".to_string() + &"x".repeat(1000);
    let e = serde_json::from_str::<serde_json::Value>(&input).unwrap_err();
    let ctx = error_context(&input, e.line(), e.column());
    assert!(ctx.contains("\\\"b\\\":x"), "{ctx}");
    assert!(ctx.len() < 450, "{ctx}");
    // out-of-range positions must not panic
    error_context("", 5, 5);
    error_context("héllo", 1, 3);
}

#[test]
fn error_context_small_inputs() {
    assert_eq!(error_context("", 5, 5), "\"\"");
    assert_eq!(error_context("héllo", 1, 3), "\"héllo\"");
    assert_eq!(error_context("a\nb", 2, 1), "\"a\\nb\"");
}

#[test]
fn error_context_widens_to_char_boundaries() {
    // 'é' is two bytes; a window edge inside it moves outward
    let input = "é".repeat(300);
    let ctx = error_context(&input, 1, 301);
    // position 300 (a boundary): window 100..500, both boundaries
    assert_eq!(ctx, format!("\"{}\"", "é".repeat(200)));
    let ctx = error_context(&input, 1, 302);
    // position 301: window 101..501 widens to 100..502
    assert_eq!(ctx, format!("\"{}\"", "é".repeat(201)));
}

#[test]
fn error_window_holds_position_and_stays_small() {
    let input = "é".repeat(300) + "X" + &"ü".repeat(300);
    // 'X' is at byte 600, on line 1, column 601
    let ctx = error_context(&input, 1, 601);
    assert!(ctx.contains('X'));
    let inner = &ctx[1..ctx.len() - 1];
    assert!(inner.len() <= 2 * 200 + 6, "{}", inner.len());
    assert!(inner.len() >= 2 * 200);
}
