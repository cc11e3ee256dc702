use report::Theme;
use report::context::{Context, Report};

#[test]
fn idle_leaves_print_in_call_order() {
    let mut ctx = Context::new(None, Theme::Unicode);
    Report::info(&mut ctx, "a".to_string());
    Report::warn(&mut ctx, "b".to_string());
    Report::error(&mut ctx, "c".to_string());
    assert_eq!(
        ctx.take_output(),
        vec!["info: a".to_string(), "warning: b".to_string(), "error: c".to_string()]
    );
}

#[test]
fn buffering_leaves_do_not_print() {
    let mut ctx = Context::new(None, Theme::Unicode);
    let mut root = Report::log(&mut ctx, "Task".to_string());
    Report::info(&mut ctx, "quiet".to_string());
    assert!(ctx.output.is_empty());
    root.close(&mut ctx);
    assert!(!ctx.output.is_empty());
}

#[test]
fn step_scenario() {
    let mut ctx = Context::new(None, Theme::Unicode);
    let mut root = Report::log(&mut ctx, "Task".to_string());
    let mut a = Report::rec(&mut ctx, "Step A".to_string());
    Report::info(&mut ctx, "One".to_string());
    a.close(&mut ctx);
    let mut b = Report::rec(&mut ctx, "Step B".to_string());
    b.close(&mut ctx);
    root.close(&mut ctx);
    let lines = ctx.take_output();
    assert_eq!(
        lines,
        vec![
            " Task".to_string(),
            " ╰── Step A".to_string(),
            "     ╰── info: One".to_string(),
        ]
    );
    for l in &lines {
        assert!(!l.contains("Step B"));
    }
}

#[test]
fn validate_scenario_keeps_recording_order() {
    let mut ctx = Context::new(None, Theme::Unicode);
    let mut root = Report::log(&mut ctx, "Main".to_string());
    let mut v = Report::rec(&mut ctx, "Validate".to_string());
    Report::error(&mut ctx, "E".to_string());
    Report::info(&mut ctx, "I".to_string());
    v.close(&mut ctx);
    root.close(&mut ctx);
    let lines = ctx.take_output();
    assert_eq!(
        lines,
        vec![
            " Main".to_string(),
            " ╰── Validate".to_string(),
            "     ├── error: E".to_string(),
            "     ╰── info: I".to_string(),
        ]
    );
}

#[test]
fn closing_twice_has_no_effect() {
    let mut ctx = Context::new(None, Theme::Unicode);
    let mut root = Report::log(&mut ctx, "Task".to_string());
    let mut a = Report::rec(&mut ctx, "Step".to_string());
    Report::info(&mut ctx, "x".to_string());
    a.close(&mut ctx);
    let buffered: usize = ctx.actions.len();
    a.close(&mut ctx);
    assert_eq!(ctx.actions.len(), buffered);
    root.close(&mut ctx);
    let rendered: usize = ctx.output.len();
    root.close(&mut ctx);
    assert_eq!(ctx.output.len(), rendered);
    assert!(!ctx.active);
}

#[test]
fn failure_through_nested_scopes() {
    let mut ctx = Context::new(None, Theme::Ascii);
    let mut root = Report::log(&mut ctx, "Root".to_string());
    let mut outer = Report::rec(&mut ctx, "Outer".to_string());
    Report::info(&mut ctx, "kept".to_string());
    let mut inner = Report::rec(&mut ctx, "Inner".to_string());
    let _e: report::Error = Report::fail(&mut ctx, "boom".to_string());
    inner.close(&mut ctx);
    outer.close(&mut ctx);
    root.close(&mut ctx);
    let lines = ctx.take_output();
    assert_eq!(
        lines,
        vec![
            " Root".to_string(),
            " \\-- Outer".to_string(),
            "     |-- info: kept".to_string(),
            "     \\-- Inner".to_string(),
            "         \\-- error: boom".to_string(),
        ]
    );
    assert_eq!(lines.iter().filter(|l| l.contains("Root")).count(), 1);
}

#[test]
fn empty_root_still_renders_once() {
    let mut ctx = Context::new(None, Theme::Unicode);
    let mut root = Report::log(&mut ctx, "Nothing".to_string());
    root.close(&mut ctx);
    assert_eq!(ctx.take_output(), vec![" Nothing".to_string()]);
}

#[test]
fn reentrant_root_renders_and_restores() {
    let mut ctx = Context::new(None, Theme::Unicode);
    let mut outer = Report::log(&mut ctx, "Outer".to_string());
    Report::info(&mut ctx, "x".to_string());
    let mut inner = Report::log(&mut ctx, "Inner".to_string());
    Report::info(&mut ctx, "y".to_string());
    inner.close(&mut ctx);
    assert!(ctx.active);
    Report::info(&mut ctx, "z".to_string());
    outer.close(&mut ctx);
    let lines = ctx.take_output();
    assert_eq!(
        lines,
        vec![
            " Inner".to_string(),
            " ╰── info: y".to_string(),
            " Outer".to_string(),
            " ├── info: x".to_string(),
            " ╰── info: z".to_string(),
        ]
    );
    assert!(!ctx.active);
}

#[test]
fn render_is_snapshot_stable() {
    let run = || {
        let mut ctx = Context::new(Some(24), Theme::Ascii);
        let mut root = Report::log(&mut ctx, "Task".to_string());
        Report::info(&mut ctx, "hi".to_string());
        root.close(&mut ctx);
        ctx.take_output()
    };
    let first = run();
    let second = run();
    assert_eq!(first, second);
    assert_eq!(
        first,
        vec![
            "+--------------------+".to_string(),
            "| Task               |".to_string(),
            "+--------------------+".to_string(),
            "| \\-- info: hi       |".to_string(),
            "+--------------------+".to_string(),
        ]
    );
}

#[test]
fn framed_lines_use_console_padding() {
    let mut ctx = Context::new(Some(14), Theme::Unicode);
    let mut root = Report::log(&mut ctx, "A".to_string());
    root.close(&mut ctx);
    let lines = ctx.take_output();
    assert_eq!(lines.len(), 3);
    assert_eq!(lines[0], format!("╭{}╮", "─".repeat(10)));
    assert_eq!(
        lines[1],
        format!("│{}│", console::pad_str(" A", 10, console::Alignment::Left, Some("...")))
    );
    assert_eq!(lines[2], format!("╰{}╯", "─".repeat(10)));
}

#[test]
fn long_title_truncates_like_console() {
    let mut ctx = Context::new(Some(12), Theme::Unicode);
    let mut root = Report::log(&mut ctx, "a very long report title".to_string());
    root.close(&mut ctx);
    let lines = ctx.take_output();
    assert_eq!(
        lines[1],
        format!(
            "│{}│",
            console::pad_str(" a very long report title", 8, console::Alignment::Left, Some("..."))
        )
    );
}

#[test]
fn terminal_width_leaves_room_for_the_border() {
    assert_eq!(Context::new(Some(84), Theme::Ascii).width, Some(80));
    assert_eq!(Context::new(Some(7), Theme::Ascii).width, Some(3));
    assert_eq!(Context::new(Some(6), Theme::Ascii).width, None);
    assert_eq!(Context::new(None, Theme::Ascii).width, None);
}

#[test]
fn narrow_terminal_renders_plain() {
    let mut ctx = Context::new(Some(6), Theme::Unicode);
    let mut root = Report::log(&mut ctx, "Tiny".to_string());
    Report::info(&mut ctx, "fits".to_string());
    root.close(&mut ctx);
    assert_eq!(
        ctx.take_output(),
        vec![" Tiny".to_string(), " ╰── info: fits".to_string()]
    );
}

#[test]
fn width_can_be_reread_after_a_resize() {
    let mut ctx = Context::new(None, Theme::Ascii);
    ctx.set_terminal_width(Some(24));
    assert_eq!(ctx.width, Some(20));
    ctx.set_terminal_width(Some(5));
    assert_eq!(ctx.width, None);
}

#[test]
fn error_marker_carries_nothing() {
    let e = report::Error;
    assert_eq!(format!("{:?}", e), "Error");
}
