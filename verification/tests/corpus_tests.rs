use joy_generator::corpus::{build_corpus, create_fallback_corpus, load_corpus, CorpusStore};
use std::sync::Arc;

#[test]
fn test_load_corpus() {
    let corpus = load_corpus().unwrap();
    assert!(!corpus.messages.is_empty());
}

#[test]
fn test_fallback_corpus() {
    let fallback = create_fallback_corpus();
    assert_eq!(fallback.messages.len(), 1);
    assert!(fallback.messages[0].template.contains("{name}"));
}

#[test]
fn test_corpus_caching() {
    let store = CorpusStore::new();
    let corpus1 = store.load();
    let corpus2 = store.load();
    // Should be the same Arc (same pointer)
    assert!(Arc::ptr_eq(&corpus1, &corpus2));
}

#[test]
fn test_corpus_decompression() {
    // Corpus should load successfully (even if using fallback)
    let corpus = load_corpus().unwrap();
    assert!(!corpus.messages.is_empty());
}

#[test]
fn test_corpus_initialization() {
    let corpus = load_corpus().unwrap();
    // Should have at least one message (fallback if corpus empty)
    assert!(corpus.messages.len() > 0);
}

#[test]
fn test_message_count() {
    let corpus = load_corpus().unwrap();
    assert!(corpus.messages.len() >= 1);

    // Verify message structure
    for msg in &corpus.messages {
        assert!(!msg.template.is_empty());
        assert!(!msg.language_code.is_empty());
    }
}

#[test]
fn test_language_index() {
    let corpus = load_corpus().unwrap();
    // Should have en-GB in index (fallback corpus)
    assert!(corpus.bucket_for("en-GB").is_some());
}

#[test]
fn test_build_corpus_parses_lines() {
    let text = "Farewell, {name}!\n# a comment line\n\n   Until next time   \n";
    let corpus = build_corpus(text);
    assert_eq!(corpus.messages.len(), 2);
    assert_eq!(corpus.messages[0].template, "Farewell, {name}!");
    assert_eq!(corpus.messages[1].template, "Until next time");
    assert_eq!(corpus.messages[0].language_code, "en-GB");
    assert!(!corpus.messages[0].has_emojis);
    let bucket = corpus.bucket_for("en-GB").unwrap();
    assert_eq!(bucket.as_slice(), &[0, 1]);
}

#[test]
fn test_build_corpus_empty_falls_back() {
    let corpus = build_corpus("# only comments\n\n   \n");
    assert_eq!(corpus.messages.len(), 1);
    assert_eq!(corpus.messages[0].template, "Wishing you a joyous day, {name} ❤️");
    assert!(corpus.messages[0].has_emojis);
    assert_eq!(corpus.messages[0].language_code, "en-GB");
}

#[test]
fn test_build_corpus_classifies_emoji_lines() {
    let corpus = build_corpus("So long ✨\nplain goodbye\n");
    assert_eq!(corpus.messages.len(), 2);
    assert!(corpus.messages[0].has_emojis);
    assert!(!corpus.messages[1].has_emojis);
}
