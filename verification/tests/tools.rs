use commander::error::ToolError;
use commander::model::ToolPermissionMode;
use commander::tool::echo::EchoTool;
use commander::tool::file_edit::{apply_edits, TextEdit};
use commander::tool::memory::{
    check_memory_search, note_content, note_entry, search_failed, MemorySearchTool, MemoryTarget, MemoryWriteTool,
};
use commander::tool::pdf::PdfFileReadTool;
use commander::tool::pptx::{
    check_pptx_extension, check_presentation, conversion_result, converter_timed_out, truncate_text, PptxReadTool,
};
use commander::tool::research::{
    articles_context, expand_prompt, extract_prompt, map_llm_error, map_tavily_error, parse_u32_argument, query_list,
    research_arguments, NumberArgument, ResearchAction, ResearchPhase, ResearchRun, ResearchTool, TavilyFailure,
};
use commander::tool::transcribe::{
    check_audio_file, check_transcription_status, form_fields, reported_language, requested_language,
    upload_file_name, TranscribeTool, MODEL,
};
use commander::tool::visual::{
    check_source, filename, infer_source, inspection_content, InspectionPart, SourceKind, VisualInspectTool, SYSTEM_PROMPT,
};

fn invalid(e: ToolError) -> String {
    match e {
        ToolError::InvalidArguments(m) => m,
        other => panic!("expected invalid arguments, got {:?}", other),
    }
}

fn failed(e: ToolError) -> String {
    match e {
        ToolError::ExecutionFailed(m) => m,
        other => panic!("expected an execution failure, got {:?}", other),
    }
}

fn unavailable(e: ToolError) -> String {
    match e {
        ToolError::Unavailable(m) => m,
        other => panic!("expected unavailable, got {:?}", other),
    }
}

#[test]
fn edit_replaces_single_occurrence() {
    let edits = vec![TextEdit { old_text: "world".to_string(), new_text: "there".to_string() }];
    let out = apply_edits("hello world", &edits).ok().unwrap();
    assert_eq!(out, "hello there");
}

#[test]
fn echo_returns_its_arguments() {
    let tool = EchoTool;
    assert_eq!(tool.name(), "echo");
    assert_eq!(tool.default_permission(), ToolPermissionMode::Allow);
    assert_eq!(tool.execute("text unchanged"), "text unchanged");
}

#[test]
fn memory_notes_go_to_memory_or_the_journal() {
    let tool = MemoryWriteTool::new("/w".to_string());
    assert_eq!(tool.name(), "memory_write");
    assert_eq!(tool.memory_root(), "/w/memory");
    assert_eq!(tool.note_path(MemoryTarget::Memory, None, "2024-05-01").ok().unwrap(), "/w/memory/MEMORY.md");
    assert_eq!(
        tool.note_path(MemoryTarget::Journal, None, "2024-05-01").ok().unwrap(),
        "/w/memory/journals/2024-05-01.md"
    );
    assert_eq!(
        tool.note_path(MemoryTarget::Journal, Some(" 2023-12-31 "), "2024-05-01").ok().unwrap(),
        "/w/memory/journals/2023-12-31.md"
    );
    assert_eq!(
        tool.note_path(MemoryTarget::Journal, Some(" "), "2024-05-01").ok().unwrap(),
        "/w/memory/journals/2024-05-01.md"
    );
    assert_eq!(
        invalid(tool.note_path(MemoryTarget::Journal, Some("31/12/2023"), "2024-05-01").err().unwrap()),
        "journal_date must use YYYY-MM-DD format"
    );
    assert_eq!(invalid(tool.note_path(MemoryTarget::Journal, Some("2023-02-30"), "x").err().unwrap()), "journal_date must use YYYY-MM-DD format");
    assert_eq!(tool.reported_path("/w/memory/MEMORY.md"), "memory/MEMORY.md");
    assert_eq!(tool.reported_path("/elsewhere/x.md"), "/elsewhere/x.md");
}

#[test]
fn memory_notes_stay_separated() {
    assert_eq!(note_content("  remember this  ").ok().unwrap(), "remember this");
    assert_eq!(invalid(note_content(" \n ").err().unwrap()), "content must not be empty");
    assert_eq!(note_entry("", "first"), "first\n");
    assert_eq!(note_entry("  \n", "first"), "first\n");
    assert_eq!(note_entry("old", "new"), "\n\nnew\n");
    assert_eq!(note_entry("old\n", "new"), "\nnew\n");
    assert_eq!(note_entry("old\n\n", "new"), "new\n");
    let existing = "a note";
    let combined = format!("{}{}", existing, note_entry(existing, "next"));
    assert!(combined.ends_with("\n\nnext\n"));
}

#[test]
fn memory_searches_are_checked() {
    assert_eq!(check_memory_search(" cats ", None).ok().unwrap(), ("cats".to_string(), 5));
    assert_eq!(check_memory_search("cats", Some(20)).ok().unwrap(), ("cats".to_string(), 20));
    assert_eq!(invalid(check_memory_search("", None).err().unwrap()), "query must not be empty");
    assert_eq!(invalid(check_memory_search("cats", Some(0)).err().unwrap()), "limit must be between 1 and 20");
    assert_eq!(invalid(check_memory_search("cats", Some(21)).err().unwrap()), "limit must be between 1 and 20");
    assert_eq!(failed(search_failed("index offline")), "failed to search memory: index offline");
    let tool = MemorySearchTool::new(());
    assert_eq!(tool.name(), "memory_search");
    assert!(tool.description().starts_with("Search past journal notes by meaning."));
}

#[test]
fn presentations_are_checked_and_converted() {
    assert!(check_pptx_extension("deck.pptx").is_ok());
    assert_eq!(invalid(check_pptx_extension("deck.PPTX").err().unwrap()), "path must point to a .pptx file");
    assert_eq!(invalid(check_pptx_extension("deck").err().unwrap()), "path must point to a .pptx file");
    assert!(check_presentation(true, 10, "deck.pptx").is_ok());
    assert_eq!(failed(check_presentation(false, 10, "d").err().unwrap()), "path is not a file: d");
    assert_eq!(failed(check_presentation(true, 0, "d").err().unwrap()), "pptx file is empty");
    assert_eq!(
        failed(check_presentation(true, 1_000_000_001, "d").err().unwrap()),
        "pptx file is too large; limit is 1000000000 bytes"
    );
    assert_eq!(failed(converter_timed_out()), "markitdown timed out after 60 seconds");
    assert_eq!(truncate_text("aé", 2), ("a".to_string(), true));
    assert_eq!(truncate_text("aé", 3), ("aé".to_string(), false));
    assert_eq!(conversion_result(true, &b"  # Slide 1\n".to_vec(), &vec![]).ok().unwrap(), ("# Slide 1".to_string(), false));
    assert_eq!(failed(conversion_result(true, &b" \n".to_vec(), &vec![]).err().unwrap()), "pptx contained no extractable text");
    assert_eq!(failed(conversion_result(false, &vec![], &b" boom \n".to_vec()).err().unwrap()), "markitdown failed: boom");
    assert_eq!(
        conversion_result(true, &vec![b'o', b'k', 0xff], &vec![]).ok().unwrap(),
        ("ok\u{fffd}".to_string(), false)
    );
    assert_eq!(PptxReadTool::new("/w".to_string()).name(), "pptx_read");
}

#[test]
fn transcription_requests() {
    assert_eq!(requested_language(Some(" en ")), Some("en".to_string()));
    assert_eq!(requested_language(Some("  ")), None);
    assert_eq!(requested_language(None), None);
    assert!(check_audio_file(true, "a.wav").is_ok());
    assert_eq!(failed(check_audio_file(false, "a.wav").err().unwrap()), "audio_path is not a file: a.wav");
    assert_eq!(upload_file_name("/w/rec/talk.mp3"), "talk.mp3");
    assert_eq!(upload_file_name("/"), "audio");
    let fields = form_fields(&Some("de".to_string()));
    assert_eq!(
        fields,
        vec![("model", MODEL.to_string()), ("response_format", "verbose_json".to_string()), ("language", "de".to_string())]
    );
    assert_eq!(form_fields(&None).len(), 2);
    assert!(check_transcription_status(true, "200", "").is_ok());
    assert_eq!(
        failed(check_transcription_status(false, "503", "busy").err().unwrap()),
        "transcription failed: HTTP 503: busy"
    );
    assert_eq!(reported_language(Some("fr".to_string()), Some("en".to_string())), Some("fr".to_string()));
    assert_eq!(reported_language(None, Some("en".to_string())), Some("en".to_string()));
    let tool = TranscribeTool::new("/w".to_string()).ok().unwrap();
    assert_eq!(tool.transcription_url(), "http://127.0.0.1:8000/v1/audio/transcriptions");
    assert_eq!(tool.name(), "transcribe");
}

#[test]
fn visual_sources() {
    assert!(matches!(infer_source("photo.JPG"), Ok(("image/jpeg", SourceKind::Image))));
    assert!(matches!(infer_source("scan.pdf"), Ok(("application/pdf", SourceKind::Pdf))));
    assert_eq!(invalid(infer_source("notes").err().unwrap()), "file extension is required");
    assert_eq!(invalid(infer_source("movie.MOV").err().unwrap()), "unsupported visual source format: mov");
    assert_eq!(filename("/w/docs/scan.pdf"), "scan.pdf");
    assert_eq!(filename("/"), "document.pdf");
    assert!(check_source(true, 5, "a.png").is_ok());
    assert_eq!(failed(check_source(true, 0, "a.png").err().unwrap()), "visual source file is empty");
    assert_eq!(failed(check_source(false, 5, "a.png").err().unwrap()), "path is not a file: a.png");
    assert_eq!(
        failed(check_source(true, 1_000_000_001, "a.png").err().unwrap()),
        "visual source file is too large; limit is 1000000000 bytes"
    );
    assert_eq!(inspection_content("  a cat  ").ok().unwrap(), "a cat");
    assert_eq!(failed(inspection_content("  ").err().unwrap()), "visual inspection returned empty content");
    let tool = VisualInspectTool::new("/w".to_string(), (), "vision-model".to_string());
    assert_eq!((tool.name(), tool.model_id(), tool.workspace_root_path()), ("visual_inspect", "vision-model", "/w"));
}

#[test]
fn pdf_reading_is_not_available_yet() {
    assert_eq!(
        unavailable(PdfFileReadTool::new(Err("no such dir".to_string()), false).err().unwrap()),
        "failed to resolve workspace root: no such dir"
    );
    assert_eq!(
        unavailable(PdfFileReadTool::new(Ok("/w/file".to_string()), false).err().unwrap()),
        "workspace root must be a directory"
    );
    let tool = PdfFileReadTool::new(Ok("/w".to_string()), true).ok().unwrap();
    assert_eq!(tool.name(), "pdf_read");
    assert_eq!(unavailable(tool.execute().err().unwrap()), "pdf_read execution is not implemented yet");
}

#[test]
fn research_arguments_are_checked() {
    assert!(matches!(parse_u32_argument("depth", &NumberArgument::Missing), Ok(None)));
    assert!(matches!(parse_u32_argument("depth", &NumberArgument::Unsigned(2)), Ok(Some(2))));
    assert_eq!(
        invalid(parse_u32_argument("depth", &NumberArgument::NotUnsigned).err().unwrap()),
        "'depth' must be a non-negative integer"
    );
    assert_eq!(
        invalid(parse_u32_argument("depth", &NumberArgument::Unsigned(1 << 40)).err().unwrap()),
        "'depth' is out of supported range"
    );
    let (q, d, b) = research_arguments(Some(" rust "), &NumberArgument::Missing, &NumberArgument::Missing).ok().unwrap();
    assert_eq!((q.as_str(), d, b), ("rust", 1, 3));
    assert_eq!(
        invalid(research_arguments(None, &NumberArgument::Missing, &NumberArgument::Missing).err().unwrap()),
        "missing or invalid 'query'"
    );
    assert_eq!(
        invalid(research_arguments(Some("q"), &NumberArgument::Unsigned(4), &NumberArgument::Missing).err().unwrap()),
        "'depth' must be between 0 and 3"
    );
    assert_eq!(
        invalid(research_arguments(Some("q"), &NumberArgument::Unsigned(0), &NumberArgument::Unsigned(0)).err().unwrap()),
        "'breadth' must be between 1 and 5"
    );
    assert_eq!(
        invalid(research_arguments(Some("q"), &NumberArgument::Missing, &NumberArgument::NotUnsigned).err().unwrap()),
        "'breadth' must be a non-negative integer"
    );
}

#[test]
fn research_prompts() {
    let p = expand_prompt("verus", 3);
    assert_eq!(
        p,
        "Generate 3 diverse search queries to thoroughly research the following topic.\n\nTopic: verus\n\nReturn ONLY a JSON array of strings. Example:\n[\"query 1\", \"query 2\", \"query 3\"]\n\nDo not include any explanation or extra text."
    );
    let articles = vec![("T1".to_string(), "body one".to_string()), ("T2".to_string(), "body two".to_string())];
    assert_eq!(articles_context(&articles), "[1] T1\nbody one\n\n[2] T2\nbody two");
    let e = extract_prompt("verus", &articles, 2);
    assert!(e.starts_with("You are researching the following topic:\nverus\n\nYou have collected these articles:\n[1] T1"));
    assert!(e.ends_with(
        "not fully covered.\n\nReturn ONLY a JSON array of at most 2 search query strings. Example:\n[\"sub-topic query 1\", \"sub-topic query 2\"]\n\nDo not include any explanation or extra text."
    ));
    assert_eq!(query_list(" [\" a \", \"\", \"b\"] ", "queries").ok().unwrap(), vec!["a".to_string(), "b".to_string()]);
    assert!(failed(query_list("not json", "queries").err().unwrap()).starts_with("failed to parse queries JSON: "));
}

#[test]
fn research_errors() {
    assert!(matches!(map_tavily_error(TavilyFailure::Http { is_timeout: true, message: "t".to_string() }), ToolError::Timeout));
    assert_eq!(
        unavailable(map_tavily_error(TavilyFailure::Http { is_timeout: false, message: "reset".to_string() })),
        "tavily http error: reset"
    );
    assert_eq!(unavailable(map_tavily_error(TavilyFailure::RateLimit("slow".to_string()))), "tavily rate limit: slow");
    assert_eq!(unavailable(map_tavily_error(TavilyFailure::Configuration("bad".to_string()))), "tavily configuration error: bad");
    assert_eq!(failed(map_tavily_error(TavilyFailure::Api("denied".to_string()))), "tavily api error: denied");
    assert_eq!(failed(map_llm_error("quota")), "research llm request failed: quota");
    assert_eq!(unavailable(ResearchTool::new(" ", (), "m").err().unwrap()), "TAVILY_API_KEY must not be empty");
    assert_eq!(unavailable(ResearchTool::new("key", (), " ").err().unwrap()), "research model must not be empty");
    let tool = ResearchTool::new(" key ", (), " model ").ok().unwrap();
    assert_eq!((tool.name(), tool.model_id()), ("research", "model"));
    assert!(tool.description().starts_with("Perform recursive news research"));
}

#[test]
fn a_research_search_request_asks_for_recent_news() {
    let tool = ResearchTool::new(" key ", (), "model").ok().unwrap();
    let request = serde_json::to_value(tool.build_search_request("rust")).unwrap();
    assert_eq!(request["api_key"], "key");
    assert_eq!(request["query"], "rust");
    assert_eq!(request["topic"], "news");
    assert_eq!(request["search_depth"], "advanced");
    assert_eq!(request["max_results"], 10);
    assert_eq!(request["days"], 1);
    assert_eq!(request["include_raw_content"], false);
}

#[test]
fn a_research_run_gathers_the_results_of_every_level() {
    let (mut run, action) = ResearchRun::<u32>::start("topic".to_string(), 1, 2);
    assert!(matches!(action, ResearchAction::Expand { ref query, breadth: 2 } if query == "topic"));
    assert!(run.awaiting() == Some(ResearchPhase::Expanding));
    let a = run.on_expanded(vec!["q1".to_string(), "q2".to_string()]);
    assert!(matches!(a, ResearchAction::Search { ref query } if query == "q1"));
    let a = run.on_searched(vec![1]);
    assert!(matches!(a, ResearchAction::Search { ref query } if query == "q2"));
    let a = run.on_searched(vec![2]);
    assert!(matches!(a, ResearchAction::Extract { ref query, breadth: 2 } if query == "topic"));
    assert_eq!(run.current_results(), &vec![1, 2]);
    let a = run.on_extracted(vec!["sub".to_string()]);
    assert!(matches!(a, ResearchAction::Expand { ref query, .. } if query == "sub"));
    let a = run.on_expanded(vec!["q3".to_string()]);
    assert!(matches!(a, ResearchAction::Search { ref query } if query == "q3"));
    let a = run.on_searched(vec![3]);
    assert!(matches!(a, ResearchAction::Extract { ref query, .. } if query == "sub"));
    assert!(run.take_results().is_none());
    let a = run.on_extracted(vec!["deeper".to_string()]);
    assert!(matches!(a, ResearchAction::Finished));
    assert!(run.awaiting().is_none());
    assert_eq!(run.take_results(), Some(vec![1, 2, 3]));
}

#[test]
fn a_research_run_at_depth_zero_does_not_recurse() {
    let (mut run, _) = ResearchRun::<u32>::start("topic".to_string(), 0, 1);
    let a = run.on_expanded(vec![]);
    assert!(matches!(a, ResearchAction::Extract { .. }));
    let a = run.on_extracted(vec!["sub".to_string()]);
    assert!(matches!(a, ResearchAction::Finished));
    assert_eq!(run.take_results(), Some(vec![]));
}

#[test]
fn an_inspection_request_holds_the_instruction_then_the_source() {
    let tool = VisualInspectTool::new("/w".to_string(), (), "vision-model".to_string());
    let r = tool.inspection_request("read it", SourceKind::Image, "a.png", "data:image/png;base64,AA==");
    assert_eq!((r.model.as_str(), r.system.as_str()), ("vision-model", SYSTEM_PROMPT));
    assert_eq!(r.user_parts.len(), 2);
    assert!(matches!(r.user_parts[0], InspectionPart::Text(ref t) if t == "read it"));
    assert!(matches!(r.user_parts[1], InspectionPart::Image(ref d) if d == "data:image/png;base64,AA=="));
    let r = tool.inspection_request("sum up", SourceKind::Pdf, "doc.pdf", "data:application/pdf;base64,AA==");
    assert!(matches!(r.user_parts[1], InspectionPart::File { ref filename, ref data }
        if filename == "doc.pdf" && data == "data:application/pdf;base64,AA=="));
}
