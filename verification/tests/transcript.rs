use savvagent::protocol::{ContentBlock, Message, Role};
use savvagent::session::{
    check_schema_version, check_transcript_root, transcript_root, TranscriptError, TranscriptFile, TranscriptRoot,
    TRANSCRIPT_SCHEMA_VERSION,
};
use savvagent::turn::TurnState;

#[test]
fn transcript_root_tells_the_three_shapes() {
    assert_eq!(transcript_root(r#"{"schema_version":1,"messages":[]}"#), Ok(TranscriptRoot::Versioned));
    assert_eq!(transcript_root(r#"[{"role":"user","content":[]}]"#), Ok(TranscriptRoot::LegacyArray));
    assert_eq!(transcript_root(r#"{"messages":[]}"#), Ok(TranscriptRoot::Other));
    assert_eq!(transcript_root("42"), Ok(TranscriptRoot::Other));
    assert!(matches!(transcript_root("{not json"), Err(TranscriptError::Malformed(m)) if !m.is_empty()));
    assert_eq!(
        check_transcript_root(TranscriptRoot::Other),
        Err(TranscriptError::Malformed("expected a JSON object or array at the root".to_string()))
    );
    assert_eq!(
        check_schema_version(2),
        Err(TranscriptError::SchemaMismatch { found: 2, expected: TRANSCRIPT_SCHEMA_VERSION })
    );
}

#[test]
fn legacy_record_and_history_replacement() {
    let msgs = vec![Message { role: Role::User, content: vec![ContentBlock::Text { text: "hi".to_string() }] }];
    let t = TranscriptFile::legacy("model-x".to_string(), msgs);
    assert_eq!(t.schema_version, 1);
    assert_eq!(t.model, "model-x");
    assert_eq!(t.saved_at, 0);
    assert_eq!(t.messages.len(), 1);
    let c = TranscriptFile::current("m".to_string(), 7, Vec::new());
    assert_eq!((c.schema_version, c.saved_at), (1, 7));
    let mut st = TurnState::new(Vec::new(), 3);
    st.replace_history(t.messages);
    assert_eq!(st.history().len(), 1);
    st.clear_history();
    assert!(st.history().is_empty());
}
