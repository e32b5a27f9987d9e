use anthropic_completions::json::Json;
use anthropic_completions::json_serde::{read_json, write_json};
use anthropic_completions::protocol::{ContentItem, ResponseItem};
use anthropic_completions::request::{
    build_anthropic_request, convert_content_to_anthropic_blocks,
    convert_input_to_anthropic_messages, parse_image_data_uri, ContentBlock, Message, Role,
};


fn json(text: &str) -> Json {
    read_json(text).unwrap()
}


fn to_serde(j: &Json) -> serde_json::Value {
    serde_json::from_str(&write_json(j).unwrap()).unwrap()
}

fn expect(text: &str) -> serde_json::Value {
    serde_json::from_str(text).unwrap()
}

fn user(text: &str) -> ResponseItem {
    ResponseItem::Message {
        id: None,
        role: "user".to_string(),
        content: vec![ContentItem::InputText { text: text.to_string() }],
    }
}

fn assistant(text: &str) -> ResponseItem {
    ResponseItem::Message {
        id: None,
        role: "assistant".to_string(),
        content: vec![ContentItem::OutputText { text: text.to_string() }],
    }
}

fn call(call_id: &str, name: &str, arguments: &str) -> ResponseItem {
    ResponseItem::FunctionCall {
        id: None,
        name: name.to_string(),
        arguments: arguments.to_string(),
        call_id: call_id.to_string(),
    }
}

#[test]
fn image_data_uri_is_split_into_media_type_and_data() {
    let b = parse_image_data_uri("data:image/png;base64,iVBORw0KGgo=").unwrap();
    assert_eq!(
        b,
        ContentBlock::Image { media_type: "image/png".to_string(), data: "iVBORw0KGgo=".to_string() }
    );
    assert_eq!(
        to_serde(&b.to_json()),
        expect("{\"type\":\"image\",\"source\":{\"type\":\"base64\",\"media_type\":\"image/png\",\"data\":\"iVBORw0KGgo=\"}}")
    );
}

#[test]
fn image_data_uri_refuses_other_urls() {
    assert!(parse_image_data_uri("https://example.com/a.png").is_none());
    assert!(parse_image_data_uri("data:image/png,abc").is_none());
    assert!(parse_image_data_uri("data:image/png;utf8,abc").is_none());
    assert!(parse_image_data_uri("data:").is_none());
    assert!(parse_image_data_uri("").is_none());
}

#[test]
fn image_data_uri_strips_every_leading_marker() {
    let b = parse_image_data_uri("data:a;base64,base64,xyz").unwrap();
    assert_eq!(b, ContentBlock::Image { media_type: "a".to_string(), data: "xyz".to_string() });
    let b = parse_image_data_uri("data:;base64,").unwrap();
    assert_eq!(b, ContentBlock::Image { media_type: String::new(), data: String::new() });
    let b = parse_image_data_uri("data:a;b;base64,x").unwrap_or(ContentBlock::Text { text: String::new() });
    assert_eq!(b, ContentBlock::Text { text: String::new() });
}

#[test]
fn data_uri_roundtrip_scenario() {
    let media = "image/jpeg";
    let data = "AAAA/+==";
    let url = format!("data:{};base64,{}", media, data);
    assert_eq!(
        parse_image_data_uri(&url).unwrap(),
        ContentBlock::Image { media_type: media.to_string(), data: data.to_string() }
    );
}

#[test]
fn content_blocks_keep_texts_and_data_images() {
    let content = vec![
        ContentItem::InputText { text: "hi".to_string() },
        ContentItem::InputImage { image_url: "https://x/y.png".to_string() },
        ContentItem::InputImage { image_url: "data:image/gif;base64,R0lG".to_string() },
        ContentItem::OutputText { text: "there".to_string() },
    ];
    let blocks = convert_content_to_anthropic_blocks(&content);
    assert_eq!(
        blocks,
        vec![
            ContentBlock::Text { text: "hi".to_string() },
            ContentBlock::Image { media_type: "image/gif".to_string(), data: "R0lG".to_string() },
            ContentBlock::Text { text: "there".to_string() },
        ]
    );
}

#[test]
fn system_and_developer_messages_join_the_system_text() {
    let input = vec![
        ResponseItem::Message {
            id: None,
            role: "system".to_string(),
            content: vec![
                ContentItem::InputText { text: "be brief".to_string() },
                ContentItem::OutputText { text: "ignored".to_string() },
            ],
        },
        ResponseItem::Message {
            id: None,
            role: "developer".to_string(),
            content: vec![ContentItem::InputText { text: "use tools".to_string() }],
        },
        user("hello"),
    ];
    let (system, messages) = convert_input_to_anthropic_messages(&input, "base");
    assert_eq!(system, "base\nbe brief\nuse tools");
    assert_eq!(
        messages,
        vec![Message { role: Role::User, content: vec![ContentBlock::Text { text: "hello".to_string() }] }]
    );
}

#[test]
fn tool_calls_join_the_assistant_message_and_outputs_answer_them() {
    let input = vec![
        user("list files"),
        assistant("I'll look."),
        call("call_1", "shell", "{\"cmd\": [\"ls\"]}"),
        ResponseItem::FunctionCallOutput { call_id: "call_1".to_string(), output: "a.txt".to_string() },
        assistant("Done."),
    ];
    let (system, messages) = convert_input_to_anthropic_messages(&input, "");
    assert_eq!(system, "");
    assert_eq!(messages.len(), 4);
    let wire: Vec<serde_json::Value> = messages.iter().map(|m| to_serde(&m.to_json())).collect();
    assert_eq!(wire[0], expect("{\"role\":\"user\",\"content\":[{\"type\":\"text\",\"text\":\"list files\"}]}"));
    assert_eq!(
        wire[1],
        expect("{\"role\":\"assistant\",\"content\":[{\"type\":\"text\",\"text\":\"I'll look.\"},{\"type\":\"tool_use\",\"id\":\"call_1\",\"name\":\"shell\",\"input\":{\"cmd\":[\"ls\"]}}]}")
    );
    assert_eq!(
        wire[2],
        expect("{\"role\":\"user\",\"content\":[{\"type\":\"tool_result\",\"tool_use_id\":\"call_1\",\"content\":\"a.txt\"}]}")
    );
    assert_eq!(wire[3], expect("{\"role\":\"assistant\",\"content\":[{\"type\":\"text\",\"text\":\"Done.\"}]}"));
}

#[test]
fn unparsable_tool_arguments_become_an_empty_object() {
    let input = vec![assistant("x"), call("c", "f", "not json")];
    let (_, messages) = convert_input_to_anthropic_messages(&input, "");
    assert_eq!(
        to_serde(&messages[0].to_json()),
        expect("{\"role\":\"assistant\",\"content\":[{\"type\":\"text\",\"text\":\"x\"},{\"type\":\"tool_use\",\"id\":\"c\",\"name\":\"f\",\"input\":{}}]}")
    );
}

#[test]
fn tool_call_without_an_assistant_message_is_dropped() {
    let input = vec![user("u"), call("c", "f", "{}")];
    let (_, messages) = convert_input_to_anthropic_messages(&input, "");
    assert_eq!(messages.len(), 1);
    assert_eq!(messages[0].role, Role::User);
}

#[test]
fn assistant_message_without_text_is_not_sent() {
    let input = vec![
        ResponseItem::Message { id: None, role: "assistant".to_string(), content: vec![] },
        user("u"),
        ResponseItem::Other,
        ResponseItem::Reasoning { id: "r".to_string(), content: vec!["think".to_string()] },
        ResponseItem::Message { id: None, role: "tool".to_string(), content: vec![] },
    ];
    let (_, messages) = convert_input_to_anthropic_messages(&input, "");
    assert_eq!(messages.len(), 1);
    assert!(messages.len() <= input.len());
    for m in &messages {
        if m.role == Role::Assistant {
            assert!(!m.content.is_empty());
        }
    }
}

#[test]
fn request_body_holds_model_messages_limits_system_and_tools() {
    let tools = vec![json("{\"name\":\"shell\",\"input_schema\":{\"type\":\"object\"}}")];
    let payload = build_anthropic_request(&[user("hi")], "sys", tools, "sonnet-x", Some(1024));
    assert_eq!(
        to_serde(&payload),
        expect("{\"model\":\"sonnet-x\",\"messages\":[{\"role\":\"user\",\"content\":[{\"type\":\"text\",\"text\":\"hi\"}]}],\"max_tokens\":1024,\"stream\":true,\"system\":\"sys\",\"tools\":[{\"name\":\"shell\",\"input_schema\":{\"type\":\"object\"}}]}")
    );
}

#[test]
fn request_body_leaves_out_empty_system_and_tools() {
    let payload = build_anthropic_request(&[], "", Vec::new(), "m", None);
    assert_eq!(
        to_serde(&payload),
        expect("{\"model\":\"m\",\"messages\":[],\"max_tokens\":4096,\"stream\":true}")
    );
}

#[test]
fn passed_over_items_and_system_messages() {
    let base = vec![user("a"), assistant("b"), call("c", "f", "{\"x\":1}"), user("d")];
    let plain = convert_input_to_anthropic_messages(&base, "i");
    let mut with_others = base.clone();
    with_others.insert(1, ResponseItem::Other);
    with_others.insert(3, ResponseItem::Reasoning { id: "r".to_string(), content: vec![] });
    with_others.insert(0, ResponseItem::Message { id: None, role: "tool".to_string(), content: vec![] });
    assert_eq!(convert_input_to_anthropic_messages(&with_others, "i"), plain);
    let mut with_system = base.clone();
    with_system.insert(2, ResponseItem::Message {
        id: None,
        role: "developer".to_string(),
        content: vec![ContentItem::InputText { text: "x".to_string() }],
    });
    let (system, messages) = convert_input_to_anthropic_messages(&with_system, "i");
    assert_eq!(messages, plain.1);
    assert_eq!(system, "i\nx");
}
