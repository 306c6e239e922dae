use commander::llm::client::{answer_text, client_layout, ClientMessage, ClientOutput};
use commander::llm::bedrock::{
    answer_contents, check_placement, check_request, convert_token_usage, document_format, group_messages, system_blocks,
    image_format, AnswerContent, ContentKind, DocumentFormat, ImageFormat, LlmRole, OutputBlock, ReportedUsage,
};
use commander::llm::config::{
    LlmConfig, LlmProviderKind, ModelConfig, ModelConfigPaths, ProviderConfig, EXAMPLE_MODEL_CONFIG_PATH,
    FALLBACK_CONTEXT_WINDOW,
};
use commander::llm::embedding::{check_dimensions, embedding_input, EmbeddingSettings, DEFAULT_DIMENSIONS};
use commander::llm::openai::{input_items, parse_output, parse_usage, text_content_type, AnswerItem, AnswerPart};

fn model(id: &str, provider: &str, name: &str, window: i64) -> ModelConfig {
    ModelConfig { id: id.to_string(), provider: provider.to_string(), model: name.to_string(), context_window: window }
}

fn config(default_model: &str, models: Vec<ModelConfig>) -> LlmConfig {
    LlmConfig {
        default_model: default_model.to_string(),
        providers: vec![
            (
                "bedrock".to_string(),
                ProviderConfig { kind: LlmProviderKind::Bedrock, base_url: None, api_key_env: None },
            ),
            (
                "openai".to_string(),
                ProviderConfig {
                    kind: LlmProviderKind::Openai,
                    base_url: Some("https://api.openai.com/v1".to_string()),
                    api_key_env: Some("OPENAI_API_KEY".to_string()),
                },
            ),
        ],
        models,
    }
}

#[test]
fn model_config_paths() {
    let paths = ModelConfigPaths::new("/home/u/.commander/models.json".to_string());
    assert_eq!(paths.path(), "/home/u/.commander/models.json");
    assert_eq!(paths.example(), EXAMPLE_MODEL_CONFIG_PATH);
}

#[test]
fn models_resolve_through_their_provider() {
    let cfg = config("fast", vec![model(" fast ", "openai", " gpt-small ", 128_000), model("big", "bedrock", "titan", 200_000)]);
    let llm = cfg.resolve("  big ").ok().unwrap();
    assert_eq!(llm.id, "big");
    assert!(llm.provider == LlmProviderKind::Bedrock);
    assert_eq!(llm.context_window, 200_000);
    assert_eq!(cfg.resolve("").err().unwrap(), "llm id must not be empty");
    assert_eq!(cfg.resolve("nope").err().unwrap(), "unknown model id: nope");
    assert_eq!(cfg.context_window("big"), 200_000);
    assert_eq!(cfg.context_window("nope"), FALLBACK_CONTEXT_WINDOW);
}

#[test]
fn resolve_refuses_broken_models() {
    let cfg = config("a", vec![model("a", "azure", "m", 1), model("b", "openai", " ", 1), model("c", "openai", "m", 0)]);
    assert_eq!(cfg.resolve("a").err().unwrap(), "model a references unknown provider azure");
    assert_eq!(cfg.resolve("b").err().unwrap(), "llm model must not be empty");
    assert_eq!(cfg.resolve("c").err().unwrap(), "llm context_window must be positive");
    assert_eq!(cfg.validate().err().unwrap(), "model a references unknown provider azure");
    assert_eq!(cfg.list_llms().err().unwrap(), "model a references unknown provider azure");
}

#[test]
fn a_valid_configuration_lists_every_model() {
    let cfg = config("big", vec![model("small", "openai", "gpt-small", 10), model("big", "bedrock", "titan", 20)]);
    assert!(cfg.validate().is_ok());
    let llms = cfg.list_llms().ok().unwrap();
    let ids: Vec<&str> = llms.iter().map(|l| l.id.as_str()).collect();
    assert_eq!(ids, vec!["small", "big"]);
    assert_eq!(llms[0].base_url, Some("https://api.openai.com/v1".to_string()));
}

#[test]
fn selecting_a_default_model_keeps_the_configuration_valid() {
    let mut cfg = config("big", vec![model("small", "openai", "gpt-small", 10), model("big", "bedrock", "titan", 20)]);
    let chosen = cfg.select_default_model(" small ").ok().unwrap();
    assert_eq!(chosen.id, "small");
    assert_eq!(cfg.default_model, "small");
    assert!(cfg.validate().is_ok());
    assert_eq!(cfg.select_default_model("missing").err().unwrap(), "unknown model id: missing");
    assert_eq!(cfg.default_model, "small");
}

#[test]
fn content_placement_rules() {
    assert!(check_placement(LlmRole::Assistant, ContentKind::OutputText).is_ok());
    assert_eq!(
        check_placement(LlmRole::Assistant, ContentKind::InputImage).err().unwrap(),
        "images must be in user messages for Bedrock Converse"
    );
    assert_eq!(
        check_placement(LlmRole::System, ContentKind::InputFile).err().unwrap(),
        "documents must be in user messages for Bedrock Converse"
    );
    assert_eq!(check_placement(LlmRole::User, ContentKind::ToolCall).err().unwrap(), "tool calls must be in assistant messages");
    assert_eq!(
        check_placement(LlmRole::Assistant, ContentKind::ToolCallOutput).err().unwrap(),
        "tool call outputs must be in user messages"
    );
    assert!(check_request(true, false).is_ok());
    assert_eq!(check_request(true, true).err().unwrap(), "combining tools and structured output is not supported yet");
}

#[test]
fn consecutive_messages_of_one_role_are_merged() {
    let messages = vec![
        (LlmRole::System, 1),
        (LlmRole::User, 2),
        (LlmRole::User, 1),
        (LlmRole::Assistant, 0),
        (LlmRole::User, 1),
    ];
    let groups = group_messages(&messages);
    assert_eq!(groups.len(), 2);
    assert!(groups[0].role == LlmRole::User);
    assert_eq!(groups[0].parts, vec![(1, 0), (1, 1), (2, 0)]);
    assert_eq!(groups[1].parts, vec![(4, 0)]);

    let messages = vec![(LlmRole::User, 1), (LlmRole::Assistant, 2), (LlmRole::User, 1)];
    let groups = group_messages(&messages);
    assert_eq!(groups.len(), 3);
    assert!(groups[1].role == LlmRole::Assistant);
    assert_eq!(groups[1].parts, vec![(1, 0), (1, 1)]);
}

#[test]
fn media_formats() {
    assert!(matches!(image_format("image/jpg"), Ok(ImageFormat::Jpeg)));
    assert!(matches!(image_format("image/webp"), Ok(ImageFormat::Webp)));
    assert_eq!(image_format("image/bmp").err().unwrap(), "unsupported image format: image/bmp");
    assert!(matches!(document_format("application/msword"), Ok(DocumentFormat::Docx)));
    assert!(matches!(document_format("text/x-markdown"), Ok(DocumentFormat::Md)));
    assert_eq!(document_format("video/mp4").err().unwrap(), "unsupported document format: video/mp4");
}

#[test]
fn token_usage_is_clamped_at_zero() {
    let none = convert_token_usage(None);
    assert_eq!((none.input_tokens, none.output_tokens, none.cache_read_tokens, none.cache_write_tokens), (0, 0, 0, 0));
    let reported = ReportedUsage {
        input_tokens: 12,
        output_tokens: -3,
        cache_read_input_tokens: Some(4),
        cache_write_input_tokens: None,
    };
    let u = convert_token_usage(Some(&reported));
    assert_eq!((u.input_tokens, u.output_tokens, u.cache_read_tokens, u.cache_write_tokens), (12, 0, 4, 0));
    let u = parse_usage(Some(5), None, Some(2));
    assert_eq!((u.input_tokens, u.output_tokens, u.cache_read_tokens, u.cache_write_tokens), (5, 0, 2, 0));
}

#[test]
fn an_answer_without_readable_blocks_becomes_empty_text() {
    let out = answer_contents(vec![OutputBlock::Other]);
    assert_eq!(out.len(), 1);
    assert!(matches!(out[0], AnswerContent::OutputText(ref t) if t.is_empty()));
    let out = answer_contents(vec![
        OutputBlock::Text("hi".to_string()),
        OutputBlock::Other,
        OutputBlock::ToolUse { tool_use_id: "t1".to_string(), name: "shell".to_string(), input: serde_json::Value::Null },
    ]);
    assert_eq!(out.len(), 2);
    assert!(matches!(out[1], AnswerContent::ToolCall { ref call_id, ref tool_name, .. } if call_id == "t1" && tool_name == "shell"));
}

#[test]
fn openai_input_items_and_content_types() {
    assert_eq!(text_content_type(LlmRole::Assistant), "output_text");
    assert_eq!(text_content_type(LlmRole::User), "input_text");
    let fit = |kinds: Vec<ContentKind>| kinds.into_iter().map(|k| (k, true)).collect::<Vec<_>>();
    let messages = vec![
        fit(vec![ContentKind::InputText]),
        fit(vec![ContentKind::OutputText, ContentKind::ToolCall, ContentKind::ToolCall]),
        fit(vec![ContentKind::InputText, ContentKind::ToolCallOutput]),
    ];
    assert_eq!(input_items(&messages).ok().unwrap(), vec![(1, 1), (1, 2), (2, 1)]);
    let messages = vec![fit(vec![ContentKind::InputText]), fit(vec![ContentKind::ToolCall])];
    assert_eq!(input_items(&messages).err().unwrap(), "message must have at least one content item");
}

#[test]
fn openai_input_refuses_a_part_that_does_not_fit_its_role() {
    let messages = vec![vec![(ContentKind::ToolCall, true), (ContentKind::InputText, false)]];
    assert_eq!(input_items(&messages).err().unwrap(), "message content does not fit role");
    // The fit of a message's parts is checked before whether it has a part sent inside it.
    let messages = vec![vec![(ContentKind::ToolCall, false)]];
    assert_eq!(input_items(&messages).err().unwrap(), "message content does not fit role");
    // An earlier message's refusal comes first.
    let messages = vec![vec![(ContentKind::ToolCall, true)], vec![(ContentKind::InputText, false)]];
    assert_eq!(input_items(&messages).err().unwrap(), "message must have at least one content item");
}

#[test]
fn openai_output_is_read_in_order() {
    let items = vec![
        AnswerItem::Message(Some(vec![
            AnswerPart::OutputText(Some("hello".to_string())),
            AnswerPart::Other,
            AnswerPart::Refusal(Some("no".to_string())),
        ])),
        AnswerItem::FunctionCall {
            call_id: Some("c1".to_string()),
            name: Some("shell".to_string()),
            arguments: Some("{\"command\":\"ls\"}".to_string()),
        },
        AnswerItem::Other,
    ];
    let out = parse_output(Some(items)).ok().unwrap();
    assert_eq!(out.len(), 3);
    assert!(matches!(out[1], AnswerContent::OutputText(ref t) if t == "no"));
    assert!(matches!(out[2], AnswerContent::ToolCall { ref call_id, .. } if call_id == "c1"));
    match &out[2] {
        AnswerContent::ToolCall { arguments, .. } => assert_eq!(arguments["command"], "ls"),
        _ => panic!("expected a tool call"),
    }
}

#[test]
fn openai_output_errors() {
    assert_eq!(parse_output(None).err().unwrap(), "OpenAI response missing output array");
    assert_eq!(parse_output(Some(vec![AnswerItem::Other])).err().unwrap(), "LLM response has no valid message content");
    let missing_id = AnswerItem::FunctionCall { call_id: None, name: Some("x".to_string()), arguments: None };
    assert_eq!(parse_output(Some(vec![missing_id])).err().unwrap(), "OpenAI function_call missing call_id");
    let missing_name = AnswerItem::FunctionCall { call_id: Some("c".to_string()), name: None, arguments: None };
    assert_eq!(parse_output(Some(vec![missing_name])).err().unwrap(), "OpenAI function_call missing name");
    let bad = AnswerItem::FunctionCall {
        call_id: Some("c".to_string()),
        name: Some("x".to_string()),
        arguments: Some("{not json".to_string()),
    };
    assert!(parse_output(Some(vec![bad])).err().unwrap().starts_with("invalid OpenAI function_call arguments: "));
    let no_args = AnswerItem::FunctionCall { call_id: Some("c".to_string()), name: Some("x".to_string()), arguments: None };
    let out = parse_output(Some(vec![no_args])).ok().unwrap();
    assert_eq!(out.len(), 1);
    match &out[0] {
        AnswerContent::ToolCall { arguments, .. } => assert!(arguments.as_object().unwrap().is_empty()),
        _ => panic!("expected a tool call"),
    }
}

#[test]
fn embedding_settings_and_checks() {
    let s = EmbeddingSettings::new();
    assert_eq!(s.model_id, "amazon.titan-embed-text-v2:0");
    assert_eq!(s.dimensions, DEFAULT_DIMENSIONS);
    assert!(s.normalize);
    assert_eq!(embedding_input("  note ").ok().unwrap(), "note");
    assert_eq!(embedding_input(" ").err().unwrap(), "embedding input must not be empty");
    assert!(check_dimensions(1024, 1024).is_ok());
    assert_eq!(check_dimensions(1024, 512).err().unwrap(), "embedding dimension mismatch: expected 1024, got 512");
}

#[test]
fn system_prompt_blocks_come_from_system_messages_only() {
    let messages = vec![
        (LlmRole::System, vec![ContentKind::InputText, ContentKind::InputText]),
        (LlmRole::User, vec![ContentKind::InputImage]),
        (LlmRole::System, vec![ContentKind::InputText]),
    ];
    assert_eq!(system_blocks(&messages).ok().unwrap(), vec![(0, 0), (0, 1), (2, 0)]);
    let bad = vec![(LlmRole::System, vec![ContentKind::InputText, ContentKind::InputFile])];
    assert_eq!(system_blocks(&bad).err().unwrap(), "system messages can only contain input_text");
    assert!(system_blocks(&vec![]).ok().unwrap().is_empty());
}

#[test]
fn a_text_exchange_is_laid_out_and_its_answer_read() {
    let messages = vec![
        ClientMessage { role: LlmRole::System, content: "be brief".to_string() },
        ClientMessage { role: LlmRole::User, content: "hi".to_string() },
        ClientMessage { role: LlmRole::Assistant, content: "hello".to_string() },
    ];
    let (system, turns) = client_layout(&messages);
    assert_eq!(system, vec!["be brief".to_string()]);
    assert_eq!(turns.len(), 2);
    assert!(turns[0].0 == LlmRole::User && turns[0].1 == "hi");
    assert!(turns[1].0 == LlmRole::Assistant && turns[1].1 == "hello");
    let text = answer_text(ClientOutput::Message(vec![OutputBlock::Text("first".to_string()), OutputBlock::Other]));
    assert_eq!(text.ok().unwrap(), "first");
    assert_eq!(answer_text(ClientOutput::Missing).err().unwrap(), "No output in Bedrock response");
    assert_eq!(answer_text(ClientOutput::NotMessage).err().unwrap(), "Unsupported output type in Bedrock response");
    assert_eq!(answer_text(ClientOutput::Message(vec![])).err().unwrap(), "No content blocks in Bedrock response");
    assert_eq!(
        answer_text(ClientOutput::Message(vec![OutputBlock::Other, OutputBlock::Text("x".to_string())])).err().unwrap(),
        "Unsupported content block type in Bedrock response"
    );
}
