use self_smart::llm::vllm::{model_ids, read_stream, ServerEndpoint};
use self_smart::llm::{ChatResponse, Choice, ConversationContext, Message, TokenBudget, Usage};

#[test]
fn estimated_tokens_is_bytes_over_four() {
    assert_eq!(Message::user("abcdefgh").estimated_tokens(), 2);
    assert_eq!(Message::user("abc").estimated_tokens(), 0);
    // "héllo" is 6 bytes
    assert_eq!(Message::user("héllo").estimated_tokens(), 1);
    assert_eq!(Message::system("x").role, "system");
    assert_eq!(Message::assistant("x").role, "assistant");
}

#[test]
fn budget_arithmetic() {
    let mut b = TokenBudget::new(10);
    assert_eq!(b.remaining(), 10);
    assert!(b.can_fit(10));
    assert!(!b.can_fit(11));
    b.consume(4);
    assert_eq!(b.remaining(), 6);
    b.consume(u32::MAX);
    assert_eq!(b.used_tokens, u32::MAX);
    assert_eq!(b.remaining(), 0);
    b.reset();
    assert_eq!(b.used_tokens, 0);
}

#[test]
fn system_prompt_is_charged_and_sent_first() {
    let c = ConversationContext::new(100).with_system_prompt("12345678");
    assert_eq!(c.budget.used_tokens, 2);
    let ms = c.get_messages();
    assert_eq!(ms.len(), 1);
    assert_eq!(ms[0].role, "system");
    assert_eq!(ms[0].content, "12345678");
}

#[test]
fn a_message_that_does_not_fit_is_refused_and_changes_nothing() {
    let mut c = ConversationContext::new(3);
    assert!(c.add_user_message("12345678")); // 2 tokens
    assert!(!c.add_assistant_message("12345678")); // 2 more do not fit in 1
    assert_eq!(c.message_count(), 1);
    assert_eq!(c.budget.used_tokens, 2);
    assert!(c.add_assistant_message("1234"));
    assert_eq!(c.budget.used_tokens, 3);
    let ms = c.get_messages();
    assert_eq!(ms[0].role, "user");
    assert_eq!(ms[1].role, "assistant");
}

#[test]
fn trimming_keeps_the_newest_messages_that_fit_and_is_idempotent() {
    let mut c = ConversationContext::new(100).with_system_prompt("ssss"); // 1 token
    assert!(c.add_user_message(&"a".repeat(160))); // 40
    assert!(c.add_user_message(&"b".repeat(160))); // 40
    c.budget.max_tokens = 60;
    assert!(c.trim_is_safe());
    c.trim_to_budget();
    assert_eq!(c.message_count(), 1);
    assert_eq!(c.messages[0].content, "b".repeat(160));
    assert_eq!(c.budget.used_tokens, 41);
    c.trim_to_budget();
    assert_eq!(c.message_count(), 1);
    assert_eq!(c.budget.used_tokens, 41);
}

#[test]
fn clearing_leaves_only_the_system_prompt_charged() {
    let mut c = ConversationContext::new(100).with_system_prompt("ssssssss");
    c.add_user_message("hello there");
    c.clear();
    assert_eq!(c.message_count(), 0);
    assert_eq!(c.budget.used_tokens, 2);
    assert_eq!(c.system_prompt.as_deref(), Some("ssssssss"));
}

#[test]
fn first_choice_content_or_empty() {
    let mut r = ChatResponse { id: "x".into(), choices: vec![], usage: None };
    assert_eq!(r.first_choice_content(), "");
    r.choices.push(Choice { index: 0, message: Message::assistant("hi"), finish_reason: None });
    r.usage = Some(Usage { prompt_tokens: 1, completion_tokens: 2, total_tokens: 3 });
    assert_eq!(r.first_choice_content(), "hi");
}

#[test]
fn endpoint_loses_trailing_slashes() {
    let e = ServerEndpoint::new("http://localhost:8000//", "m");
    assert_eq!(e.endpoint(), "http://localhost:8000");
    assert_eq!(e.model(), "m");
    assert_eq!(e.health_url(), "http://localhost:8000/health");
    assert_eq!(e.models_url(), "http://localhost:8000/v1/models");
    assert_eq!(e.chat_url(), "http://localhost:8000/v1/chat/completions");
}

#[test]
fn streamed_reply_collects_deltas_until_done() {
    let text = "data: {\"choices\":[{\"delta\":{\"content\":\"Hel\"}}]}\n\
                : keep-alive\n\
                data: {\"choices\":[{\"delta\":{}}]}\n\
                data: not json\n\
                data: {\"choices\":[{\"delta\":{\"content\":\"lo\"}}]}\n\
                data: [DONE]\n\
                data: {\"choices\":[{\"delta\":{\"content\":\"late\"}}]}\n";
    let r = read_stream(text);
    assert_eq!(r.chunks, vec!["Hel".to_string(), "lo".to_string()]);
    assert_eq!(r.full_content, "Hello");
}

#[test]
fn model_listing_ids_in_order() {
    let body = b"{\"data\":[{\"id\":\"a\"},{\"name\":\"x\"},{\"id\":7},{\"id\":\"b\"}]}";
    assert_eq!(model_ids(body), Some(vec!["a".to_string(), "b".to_string()]));
    assert_eq!(model_ids(b"{\"data\":3}"), Some(vec![]));
    assert_eq!(model_ids(b"not json"), None);
    assert_eq!(model_ids(b"{\"object\":\"list\"}"), Some(vec![]));
    assert_eq!(model_ids(b"{\"data\":[{\"id\":7},{\"id\":\"c\"}]}"), Some(vec!["c".to_string()]));
}

#[test]
fn a_second_trim_changes_nothing_and_clones_keep_the_context() {
    let mut c = ConversationContext::new(100).with_system_prompt("ssss");
    for _ in 0..5 {
        assert!(c.add_user_message(&"m".repeat(60))); // 15 each
    }
    c.budget.max_tokens = 40;
    c.trim_to_budget();
    assert_eq!(c.message_count(), 2);
    assert_eq!(c.budget.used_tokens, 31);
    assert!(c.budget.used_tokens <= c.budget.max_tokens);
    let before = c.clone();
    assert!(c.trim_is_safe());
    c.trim_to_budget();
    assert_eq!(c.message_count(), before.message_count());
    assert_eq!(c.budget.used_tokens, before.budget.used_tokens);
    assert_eq!(before.system_prompt.as_deref(), Some("ssss"));
}
