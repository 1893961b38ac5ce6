use codex_recall::conversation::{
    ContentItem, ConversationScan, ConversationText, EventMsg, ResponseItem, RolloutItem,
    ThreadSearchPreview, content_item_text, content_match_preview, conversation_text_from_item,
    strip_user_message_prefix,
};

const MARKER: &str = "## My request:";

fn user(message: &str) -> RolloutItem {
    RolloutItem::EventMsg(EventMsg::UserMessage {
        message: message.to_string(),
    })
}

fn agent(message: &str) -> RolloutItem {
    RolloutItem::EventMsg(EventMsg::AgentMessage {
        message: message.to_string(),
    })
}

fn message(role: &str, content: Vec<ContentItem>) -> RolloutItem {
    RolloutItem::ResponseItem(ResponseItem::Message {
        role: role.to_string(),
        content,
    })
}

fn input(text: &str) -> ContentItem {
    ContentItem::InputText {
        text: text.to_string(),
    }
}

fn output(text: &str) -> ContentItem {
    ContentItem::OutputText {
        text: text.to_string(),
    }
}

fn texts(item: &RolloutItem) -> Vec<String> {
    conversation_text_from_item(item, MARKER)
        .into_iter()
        .map(|text| match text {
            ConversationText::User(text) => format!("user: {text}"),
            ConversationText::Assistant(text) => format!("assistant: {text}"),
        })
        .collect()
}

#[test]
fn requests_lose_their_context() {
    assert_eq!(strip_user_message_prefix("  hi  ", MARKER), "hi");
    assert_eq!(
        strip_user_message_prefix("context ## My request: \n do it ", MARKER),
        "do it"
    );
    assert_eq!(
        strip_user_message_prefix("## My request: a ## My request: b", MARKER),
        "a ## My request: b"
    );
    assert_eq!(strip_user_message_prefix("## My request:", MARKER), "");
}

#[test]
fn events_speak() {
    assert_eq!(texts(&user(" hello ")), vec!["user: hello"]);
    assert_eq!(texts(&user("   ")), Vec::<String>::new());
    assert_eq!(texts(&agent(" hi ")), vec!["assistant: hi"]);
    assert_eq!(texts(&agent("\n")), Vec::<String>::new());
    assert_eq!(
        texts(&RolloutItem::EventMsg(EventMsg::Other)),
        Vec::<String>::new()
    );
}

#[test]
fn response_messages_speak() {
    assert_eq!(
        texts(&message(
            "user",
            vec![input(" a "), ContentItem::InputImage, output("b")]
        )),
        vec!["user:  a  b"]
    );
    assert_eq!(
        texts(&message("assistant", vec![output("done")])),
        vec!["assistant: done"]
    );
    assert_eq!(
        texts(&message("system", vec![input("rules")])),
        Vec::<String>::new()
    );
    assert_eq!(
        texts(&message("user", vec![input(" "), input("")])),
        Vec::<String>::new()
    );
    assert_eq!(
        texts(&RolloutItem::ResponseItem(ResponseItem::Other)),
        Vec::<String>::new()
    );
}

#[test]
fn other_lines_say_nothing() {
    for item in [
        RolloutItem::SessionMeta,
        RolloutItem::TurnContext,
        RolloutItem::Compacted,
    ] {
        assert_eq!(texts(&item), Vec::<String>::new());
    }
}

#[test]
fn images_have_no_text() {
    assert_eq!(content_item_text(&input("a")), Some(&"a".to_string()));
    assert_eq!(content_item_text(&output("b")), Some(&"b".to_string()));
    assert_eq!(content_item_text(&ContentItem::InputImage), None);
}

#[test]
fn content_previews() {
    assert_eq!(
        content_match_preview(&Some(user("find the needle")), "needle", MARKER),
        Some(ThreadSearchPreview::ContentMatch {
            snippet: "find the needle".to_string()
        })
    );
    assert_eq!(
        content_match_preview(&Some(user("nothing here")), "needle", MARKER),
        None
    );
    assert_eq!(
        content_match_preview(&Some(RolloutItem::SessionMeta), "needle", MARKER),
        None
    );
    assert_eq!(content_match_preview(&None, "needle", MARKER), None);
}

fn scan(lines: Vec<Option<RolloutItem>>) -> (usize, Option<ThreadSearchPreview>) {
    let mut scan = ConversationScan::new(MARKER);
    let mut read = 0;
    for line in lines {
        if !scan.wants_line() {
            break;
        }
        scan.take_line(line);
        read += 1;
    }
    (read, scan.finish())
}

fn conversation(user_message: &str, assistant_message: Option<&str>) -> Option<ThreadSearchPreview> {
    Some(ThreadSearchPreview::Conversation {
        user_message: user_message.to_string(),
        assistant_message: assistant_message.map(str::to_string),
    })
}

#[test]
fn conversations_open_with_a_request_and_a_reply() {
    let lines = vec![
        Some(RolloutItem::SessionMeta),
        None,
        Some(agent("too early")),
        Some(user("first  question")),
        Some(user("second question")),
        Some(agent("an answer")),
        Some(agent("more")),
    ];
    assert_eq!(scan(lines), (6, conversation("first question", Some("an answer"))));
}

#[test]
fn conversations_may_lack_a_reply() {
    assert_eq!(scan(vec![Some(user("q"))]), (1, conversation("q", None)));
    assert_eq!(scan(vec![Some(agent("a"))]), (1, None));
    assert_eq!(scan(Vec::new()), (0, None));
}

#[test]
fn scans_stop_at_the_limit() {
    let mut lines: Vec<Option<RolloutItem>> = (0..400).map(|_| None).collect();
    lines.push(Some(user("too late")));
    assert_eq!(scan(lines), (400, None));

    let mut lines: Vec<Option<RolloutItem>> = (0..399).map(|_| None).collect();
    lines.push(Some(user("just in time")));
    assert_eq!(scan(lines), (400, conversation("just in time", None)));
}

#[test]
fn opening_messages_are_cut() {
    let long = "y".repeat(200);
    let cut = format!("{}...", "y".repeat(96));
    assert_eq!(
        scan(vec![Some(user(&long)), Some(agent(&long))]),
        (2, conversation(&cut, Some(&cut)))
    );
}

#[test]
fn previews_can_be_copied() {
    let preview = conversation("a", Some("b"));
    assert_eq!(preview.clone(), preview);
    let preview = ThreadSearchPreview::ContentMatch {
        snippet: "s".to_string(),
    };
    assert_eq!(preview.clone(), preview);
}
