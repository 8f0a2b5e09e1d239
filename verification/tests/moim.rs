use goose::conversation::{has_unexpected_issues, insert_moim, Conversation, Message, MessageContent};
use goose::moim::{
    build_turn_context, close_tag, compaction_remaining_line, compose_moim, compose_moim_at,
    escape_xml_text, minute_timestamp, moim_step, open_tag, resolve_context_limit,
    should_skip_moim, start_moim, tag, turn_budget_line, LocalMinute, MoimAction, MoimEvent,
    MoimStatus, TurnContext, TURN_CONTEXT_TAG,
};

/// The compaction point as the caller works it out from the context limit
/// and the compaction threshold.
fn compaction_point(context_limit: Option<usize>, threshold: Option<f64>) -> Option<i32> {
    let limit = context_limit?;
    let threshold = threshold?;
    if limit == 0 || threshold <= 0.0 || threshold >= 1.0 {
        return None;
    }
    Some((limit as f64 * threshold) as i32)
}

fn context_with(
    working_dir: &str,
    total_tokens: Option<i32>,
    context_limit: Option<usize>,
    threshold: Option<f64>,
) -> TurnContext {
    TurnContext {
        working_dir: working_dir.to_string(),
        total_tokens,
        context_limit,
        compaction_point: compaction_point(context_limit, threshold),
        ..Default::default()
    }
}

fn status() -> MoimStatus {
    MoimStatus::default()
}

fn turn_context() -> TurnContext {
    TurnContext { working_dir: "/test/dir".to_string(), ..Default::default() }
}

fn text_at(message: &Message, index: usize) -> &str {
    message.content[index].as_text().unwrap()
}

fn is_moim(content: &MessageContent) -> bool {
    content
        .as_text()
        .is_some_and(|text| text.starts_with(&format!("<{}>\n", TURN_CONTEXT_TAG)))
}

fn noon() -> LocalMinute {
    LocalMinute { year: 2025, month: 6, day: 1, hour: 12, minute: 30 }
}

/// Runs the injection steps once the session is known, with the given
/// extension parts and a repair that finds nothing to do.
fn inject(conversation: Conversation, context: &TurnContext, parts: Vec<String>) -> Conversation {
    inject_with_repair(conversation, context, parts, |c| (c, vec![]))
}

fn inject_with_repair(
    conversation: Conversation,
    context: &TurnContext,
    parts: Vec<String>,
    repair: impl Fn(Conversation) -> (Conversation, Vec<String>),
) -> Conversation {
    let (mut stage, mut action) = start_moim(context.clone());
    let mut parts = Some(parts);
    loop {
        let event = match action {
            MoimAction::CollectParts => MoimEvent::PartsCollected(
                parts.take().unwrap(),
                noon(),
                conversation.messages().clone(),
            ),
            MoimAction::Repair(messages) => {
                let (repaired, issues) = repair(Conversation::new_unvalidated(messages));
                MoimEvent::Repaired(repaired, issues)
            }
            MoimAction::KeepConversation | MoimAction::DiscardRepair(_) => return conversation,
            MoimAction::UseRepaired(c) => return c,
        };
        (stage, action) = moim_step(stage, event);
    }
}

fn session_context() -> TurnContext {
    build_turn_context(Some("/test/dir".to_string()), None, None, None, status())
}

#[test]
fn test_moim_prepended_to_latest_user_message() {
    let conv = Conversation::new_unvalidated(vec![
        Message::user().with_text("Hello"),
        Message::assistant().with_text("Hi"),
        Message::user().with_text("Bye"),
    ]);
    let result = inject(conv, &session_context(), vec![]);
    let msgs = result.messages();

    assert_eq!(msgs.len(), 3);
    assert_eq!(text_at(&msgs[0], 0), "Hello");
    assert_eq!(text_at(&msgs[1], 0), "Hi");
    assert!(is_moim(&msgs[2].content[0]));
    assert_eq!(text_at(&msgs[2], 1), "Bye");
}

#[test]
fn test_moim_injection_no_assistant() {
    let conv = Conversation::new_unvalidated(vec![Message::user().with_text("Hello")]);
    let result = inject(conv, &session_context(), vec![]);

    assert_eq!(result.messages().len(), 1);
    assert!(is_moim(&result.messages()[0].content[0]));
    assert_eq!(text_at(&result.messages()[0], 1), "Hello");
}

#[test]
fn test_moim_with_tool_calls() {
    let conv = Conversation::new_unvalidated(vec![
        Message::user().with_text("Search for something"),
        Message::assistant()
            .with_text("I'll search for you")
            .with_tool_request("search_1", "search"),
        Message::user().with_tool_response("search_1", vec![]),
    ]);

    let result = inject(conv, &session_context(), vec![]);
    let msgs = result.messages();

    assert_eq!(msgs.len(), 3);
    assert!(is_moim(&msgs[0].content[0]));
    assert_eq!(text_at(&msgs[0], 1), "Search for something");
    assert!(matches!(&msgs[2].content[0], MessageContent::ToolResponse(_)));
    assert_eq!(msgs[2].content.len(), 1);
}

#[test]
fn test_compaction_remaining_line_threshold() {
    assert_eq!(
        compaction_remaining_line(&context_with("/tmp", Some(10_000), Some(100_000), Some(0.8))),
        None
    );
    assert_eq!(
        compaction_remaining_line(&context_with("/tmp", Some(50_000), Some(100_000), Some(0.8))),
        Some("~30k tokens remaining".to_string())
    );
    assert_eq!(
        compaction_remaining_line(&context_with("/tmp", Some(50_000), Some(100_000), Some(0.0))),
        None
    );
    assert_eq!(
        compaction_remaining_line(&context_with("/tmp", Some(50_000), Some(100_000), Some(1.0))),
        None
    );
}

#[test]
fn test_turn_budget_line_threshold() {
    assert_eq!(
        turn_budget_line(&TurnContext {
            turns_taken: Some(49),
            max_turns: Some(100),
            ..turn_context()
        }),
        None
    );
    assert_eq!(
        turn_budget_line(&TurnContext {
            turns_taken: Some(50),
            max_turns: Some(100),
            ..turn_context()
        }),
        Some("50/100 used".to_string())
    );
    assert_eq!(
        turn_budget_line(&TurnContext {
            turns_taken: Some(1),
            max_turns: Some(0),
            ..turn_context()
        }),
        None
    );
}

#[test]
fn compaction_line_past_the_compaction_point_counts_down_below_zero() {
    let context = TurnContext {
        total_tokens: Some(90_500),
        compaction_point: Some(80_000),
        ..turn_context()
    };
    assert_eq!(
        compaction_remaining_line(&context),
        Some("~-10k tokens remaining".to_string())
    );
}

#[test]
fn compaction_line_needs_tokens_and_a_point() {
    let no_tokens = TurnContext { total_tokens: Some(0), compaction_point: Some(10), ..turn_context() };
    assert_eq!(compaction_remaining_line(&no_tokens), None);
    let no_point = TurnContext { total_tokens: Some(10), compaction_point: None, ..turn_context() };
    assert_eq!(compaction_remaining_line(&no_point), None);
    let exactly_half = TurnContext {
        total_tokens: Some(40_000),
        compaction_point: Some(80_000),
        ..turn_context()
    };
    assert_eq!(
        compaction_remaining_line(&exactly_half),
        Some("~40k tokens remaining".to_string())
    );
}

#[test]
fn turn_budget_counts_from_half_and_beyond_the_budget() {
    let over = TurnContext { turns_taken: Some(7), max_turns: Some(5), ..turn_context() };
    assert_eq!(turn_budget_line(&over), Some("7/5 used".to_string()));
    let odd = TurnContext { turns_taken: Some(2), max_turns: Some(5), ..turn_context() };
    assert_eq!(turn_budget_line(&odd), None);
    let huge = TurnContext {
        turns_taken: Some(u32::MAX),
        max_turns: Some(u32::MAX),
        ..turn_context()
    };
    assert_eq!(turn_budget_line(&huge), Some("4294967295/4294967295 used".to_string()));
    let missing = TurnContext { turns_taken: None, max_turns: Some(5), ..turn_context() };
    assert_eq!(turn_budget_line(&missing), None);
}

#[test]
fn escaping_replaces_markup_characters() {
    assert_eq!(escape_xml_text("a<b>&c"), "a&lt;b&gt;&amp;c");
    assert_eq!(escape_xml_text("&amp;"), "&amp;amp;");
    assert_eq!(escape_xml_text("plain ünïcode"), "plain ünïcode");
    assert_eq!(escape_xml_text(""), "");
}

#[test]
fn escaping_is_undone_by_replacing_the_entities() {
    for value in ["a<b>&c", "&amp;", "&lt;&gt;", "<<&>>", "plain ünïcode", ""] {
        let back = escape_xml_text(value)
            .replace("&lt;", "<")
            .replace("&gt;", ">")
            .replace("&amp;", "&");
        assert_eq!(back, value);
    }
}

#[test]
fn tags_frame_escaped_values() {
    assert_eq!(open_tag("x"), "<x>");
    assert_eq!(close_tag("x"), "</x>");
    assert_eq!(tag("working-directory", "/a<b"), "<working-directory>/a&lt;b</working-directory>");
}

#[test]
fn composed_turn_context_for_a_fixed_time() {
    let context = TurnContext {
        working_dir: "/w".to_string(),
        total_tokens: Some(50_000),
        context_limit: Some(100_000),
        compaction_point: Some(80_000),
        turns_taken: Some(3),
        max_turns: Some(4),
    };
    let parts = vec![
        "ext one".to_string(),
        " \t\n".to_string(),
        "\u{3000}".to_string(),
        "ext two".to_string(),
    ];
    let text = compose_moim_at(&context, "2024-01-02 03:04:00", parts);
    assert_eq!(
        text,
        "<turn-context>\n\
         <current-time>2024-01-02 03:04:00</current-time>\n\
         <working-directory>/w</working-directory>\n\
         <compaction>~30k tokens remaining</compaction>\n\
         <turn-budget>3/4 used</turn-budget>\n\
         \n\
         ext one\n\
         \n\
         ext two\n\
         </turn-context>"
    );
}

#[test]
fn composed_turn_context_is_framed() {
    let text = compose_moim(&turn_context(), &noon(), vec![]);
    assert_eq!(
        text,
        "<turn-context>\n<current-time>2025-06-01 12:30:00</current-time>\n<working-directory>/test/dir</working-directory>\n</turn-context>"
    );
}

#[test]
fn timestamps_are_zero_padded_to_the_minute() {
    let t = LocalMinute { year: 987, month: 1, day: 2, hour: 3, minute: 4 };
    assert_eq!(minute_timestamp(&t), "0987-01-02 03:04:00");
    let t = LocalMinute { year: 12345, month: 12, day: 31, hour: 23, minute: 59 };
    assert_eq!(minute_timestamp(&t), "+12345-12-31 23:59:00");
    let t = LocalMinute { year: -44, month: 3, day: 15, hour: 0, minute: 0 };
    assert_eq!(minute_timestamp(&t), "-0044-03-15 00:00:00");
    assert_eq!(minute_timestamp(&noon()), "2025-06-01 12:30:00");
}

#[test]
fn small_contexts_keep_the_conversation() {
    let conv = Conversation::new_unvalidated(vec![Message::user().with_text("Hello")]);
    let small = TurnContext { context_limit: Some(1000), ..turn_context() };
    let result = inject(conv, &small, vec!["ext".to_string()]);
    assert_eq!(result.messages()[0].content.len(), 1);
}

#[test]
fn small_context_windows_skip_the_turn_context() {
    let small = TurnContext { context_limit: Some(31_999), ..turn_context() };
    assert!(should_skip_moim(&small));
    let enough = TurnContext { context_limit: Some(32_000), ..turn_context() };
    assert!(!should_skip_moim(&enough));
    assert!(!should_skip_moim(&turn_context()));
}

#[test]
fn context_limit_prefers_the_provider() {
    assert_eq!(resolve_context_limit(Some(1), Some(2)), Some(1));
    assert_eq!(resolve_context_limit(None, Some(2)), Some(2));
    assert_eq!(resolve_context_limit(None, None), None);
}

#[test]
fn turn_context_without_session_uses_current_directory() {
    let status = MoimStatus { turns_taken: Some(1), max_turns: Some(2) };
    let context = build_turn_context(None, Some(5), Some(6), Some(7), status);
    assert_eq!(context.working_dir, ".");
    assert_eq!(context.total_tokens, Some(5));
    assert_eq!(context.context_limit, Some(6));
    assert_eq!(context.compaction_point, Some(7));
    assert_eq!(context.turns_taken, Some(1));
    assert_eq!(context.max_turns, Some(2));
}

#[test]
fn conversation_without_user_turn_is_left_alone() {
    let conv = Conversation::new_unvalidated(vec![
        Message::assistant().with_text("Hi"),
        Message::user().with_tool_response("t", vec!["out".to_string()]),
    ]);
    let result = inject(conv, &session_context(), vec![]);
    let msgs = result.messages();
    assert_eq!(msgs.len(), 2);
    assert_eq!(msgs[0].content.len(), 1);
    assert_eq!(msgs[1].content.len(), 1);
    assert!(insert_moim(msgs.clone(), "m".to_string()).is_none());
}

#[test]
fn moim_goes_after_leading_tool_responses() {
    let messages = vec![
        Message::user().with_text("first"),
        Message::user()
            .with_tool_response("a", vec![])
            .with_tool_response("b", vec![])
            .with_text("after tools"),
        Message::assistant().with_text("reply"),
    ];
    let result = insert_moim(messages, "M".to_string()).unwrap();
    assert_eq!(result.len(), 3);
    assert_eq!(result[0].content.len(), 1);
    let target = &result[1].content;
    assert_eq!(target.len(), 4);
    assert!(matches!(&target[0], MessageContent::ToolResponse(r) if r.id == "a"));
    assert!(matches!(&target[1], MessageContent::ToolResponse(r) if r.id == "b"));
    assert_eq!(target[2].as_text(), Some("M"));
    assert_eq!(target[3].as_text(), Some("after tools"));
    assert_eq!(result[2].content.len(), 1);
}

#[test]
fn empty_user_message_receives_the_moim() {
    let result = insert_moim(vec![Message::user()], "M".to_string()).unwrap();
    assert_eq!(result[0].content.len(), 1);
    assert_eq!(result[0].content[0].as_text(), Some("M"));
}

#[test]
fn expected_repairs_keep_the_repaired_conversation() {
    let conv = Conversation::new_unvalidated(vec![Message::user().with_text("a")]);
    let issues = vec![
        "Merged consecutive user messages at 2".to_string(),
        "note: Merged text content".to_string(),
    ];
    assert!(!has_unexpected_issues(&issues));
    let result = inject_with_repair(conv, &session_context(), vec![], |c| (c, issues.clone()));
    assert_eq!(result.messages()[0].content.len(), 2);
    assert!(is_moim(&result.messages()[0].content[0]));
}

#[test]
fn unexpected_repairs_fall_back_to_the_unrepaired_conversation() {
    let conv = Conversation::new_unvalidated(vec![Message::user().with_text("a")]);
    let issues = vec![
        "Removed trailing assistant message".to_string(),
        "Removed orphaned tool response".to_string(),
    ];
    assert!(has_unexpected_issues(&issues));
    let result = inject_with_repair(conv, &session_context(), vec![], |c| (c, issues.clone()));
    assert_eq!(result.messages()[0].content.len(), 1);
    assert_eq!(text_at(&result.messages()[0], 0), "a");
    assert!(!has_unexpected_issues(&vec![]));
    assert!(has_unexpected_issues(&vec!["merged consecutive user messages".to_string()]));
}
