use dummysite_controller::todo::{
    check_trimmed_content, describe_event, format_i32, html_escape, image_needs_refresh,
    render_todo_item, render_todo_items, validate_todo_content, CreateTodo, Todo, TodoError,
    TodoEvent,
};

#[test]
fn content_is_trimmed_before_storing() {
    let req = CreateTodo { content: "  buy milk \n".to_string() };
    assert_eq!(validate_todo_content(&req.content), Ok("buy milk".to_string()));
}

#[test]
fn blank_content_is_refused() {
    assert_eq!(validate_todo_content("   \t "), Err(TodoError::Empty));
    assert_eq!(validate_todo_content(""), Err(TodoError::Empty));
    assert_eq!(check_trimmed_content(""), Err(TodoError::Empty));
}

#[test]
fn content_length_limit_counts_bytes() {
    let ok = "a".repeat(140);
    assert_eq!(validate_todo_content(&ok), Ok(ok.clone()));
    let long = "a".repeat(141);
    assert_eq!(validate_todo_content(&long), Err(TodoError::TooLong));
    let wide = "\u{2713}".repeat(47);
    assert_eq!(check_trimmed_content(&wide), Err(TodoError::TooLong));
    assert_eq!(check_trimmed_content("\u{2713}"), Ok(()));
}

#[test]
fn html_special_characters_are_escaped() {
    assert_eq!(
        html_escape("<a href=\"x\">Tom & Jerry's</a>"),
        "&lt;a href=&quot;x&quot;&gt;Tom &amp; Jerry&#x27;s&lt;/a&gt;"
    );
    assert_eq!(html_escape("plain \u{2713}"), "plain \u{2713}");
    assert_eq!(html_escape(""), "");
}

#[test]
fn numbers_are_written_in_decimal() {
    assert_eq!(format_i32(0), "0");
    assert_eq!(format_i32(7), "7");
    assert_eq!(format_i32(1203), "1203");
    assert_eq!(format_i32(-42), "-42");
    assert_eq!(format_i32(i32::MIN), "-2147483648");
    assert_eq!(format_i32(i32::MAX), "2147483647");
}

#[test]
fn open_todo_renders_with_done_button() {
    let t = Todo { id: 12, content: "a < b".to_string(), done: false };
    assert_eq!(
        render_todo_item(&t),
        "<li class=\"todo-item\">a &lt; b<button class=\"done-button\" onclick=\"markDone(12)\">Done</button></li>"
    );
}

#[test]
fn finished_todo_renders_with_badge() {
    let t = Todo { id: 3, content: "ship".to_string(), done: true };
    assert_eq!(
        render_todo_item(&t),
        "<li class=\"todo-item done\">ship<span class=\"done-badge\">\u{2713} Done</span></li>"
    );
    let both = vec![t, Todo { id: 4, content: "x".to_string(), done: false }];
    let html = render_todo_items(&both);
    assert!(html.starts_with("<li class=\"todo-item done\">ship"));
    assert!(html.ends_with("markDone(4)\">Done</button></li>"));
    assert_eq!(render_todo_items(&Vec::new()), "");
}

#[test]
fn events_are_described_by_action() {
    let todo = Todo { id: 1, content: "walk".to_string(), done: true };
    let e = TodoEvent { action: "created".to_string(), todo };
    assert_eq!(describe_event(&e), "A todo was created: \"walk\"");
    let e = TodoEvent { action: "updated".to_string(), todo: e.todo };
    assert_eq!(describe_event(&e), "A todo was updated: \"walk\" (done: true)");
    let e = TodoEvent { action: "deleted".to_string(), todo: e.todo };
    assert_eq!(describe_event(&e), "Unknown action on todo: \"walk\"");
}

#[test]
fn image_refresh_after_interval() {
    assert!(!image_needs_refresh(1000, 500, 600));
    assert!(image_needs_refresh(1100, 500, 600));
    assert!(!image_needs_refresh(100, 500, 600));
    assert!(image_needs_refresh(100, 500, 0));
}
