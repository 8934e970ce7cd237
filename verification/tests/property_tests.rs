use joy_generator::corpus::{build_corpus, LanguageBucket, MessageCorpus};
use joy_generator::emoji::has_emojis;
use joy_generator::generate::generate_from_corpus;
use joy_generator::generate_goodbye;
use joy_generator::options::{is_valid_language_code, is_valid_timezone};
use joy_generator::template::{replace_template_variables, sanitize_template_value};
use joy_generator::CoreGoodbyeOptions;
use joy_generator::GoodbyeError;

#[test]
fn test_end_to_end_fallback_with_name() {
    // Default corpus (fallback), language "en-GB", name "Alice".
    let mut options = CoreGoodbyeOptions::default();
    options
        .template_args
        .insert("name".to_string(), "Alice".to_string());
    let result = generate_goodbye(&options).unwrap();
    assert_eq!(result, "Wishing you a joyous day, Alice ❤️");
}

#[test]
fn test_end_to_end_no_emojis_fallback() {
    // use_emojis = false against the fallback message: no emoji survives.
    let mut options = CoreGoodbyeOptions::default();
    options.use_emojis = false;
    let result = generate_goodbye(&options).unwrap();
    assert_eq!(result, "Wishing you a joyous day, Good Soul ");
    assert!(!has_emojis(&result));
}

#[test]
fn test_unknown_language_falls_back() {
    // A corpus with only "en-GB" entries serves an unknown language code
    // from the "en-GB" bucket instead of failing.
    let corpus = build_corpus("See you soon, {name}!\n");
    let mut options = CoreGoodbyeOptions::default();
    options.language_code = "zz-ZZ".to_string();
    let result = generate_from_corpus(&corpus, &options).unwrap();
    assert_eq!(result, "See you soon, Good Soul!");
}

#[test]
fn test_invalid_language_code_error() {
    // A corpus whose index lacks both the requested language and "en-GB".
    let corpus = MessageCorpus {
        messages: Vec::new(),
        language_index: Vec::new(),
    };
    let options = CoreGoodbyeOptions::default();
    let result = generate_from_corpus(&corpus, &options);
    match result {
        Err(GoodbyeError::InvalidLanguageCodeError(l)) => assert_eq!(l, "en-GB"),
        _ => panic!("expected InvalidLanguageCodeError"),
    }
}

#[test]
fn test_empty_bucket_error() {
    // A present but empty bucket yields a corpus error.
    let corpus = MessageCorpus {
        messages: Vec::new(),
        language_index: vec![LanguageBucket {
            language_code: "en-GB".to_string(),
            indices: Vec::new(),
        }],
    };
    let options = CoreGoodbyeOptions::default();
    let result = generate_from_corpus(&corpus, &options);
    assert!(matches!(result, Err(GoodbyeError::CorpusLoadError(_))));
}

#[test]
fn test_invalid_timezone_error() {
    let mut options = CoreGoodbyeOptions::default();
    options.timezone = "Nowhere/AtAll".to_string();
    let result = replace_template_variables("{date}", &options);
    match result {
        Err(GoodbyeError::InvalidTimezoneError(tz)) => assert_eq!(tz, "Nowhere/AtAll"),
        _ => panic!("expected InvalidTimezoneError"),
    }
}

#[test]
fn test_invalid_timezone_error_without_placeholder() {
    // Date and time are derived whenever the arguments lack them, even when
    // the template holds no placeholder, so a bad timezone still fails.
    let mut options = CoreGoodbyeOptions::default();
    options.timezone = "Nowhere/AtAll".to_string();
    assert!(replace_template_variables("plain", &options).is_err());
}

#[test]
fn test_supplied_date_time_skip_timezone() {
    // With date and time supplied, the timezone is never resolved.
    let mut options = CoreGoodbyeOptions::default();
    options.timezone = "Nowhere/AtAll".to_string();
    options
        .template_args
        .insert("date".to_string(), "2025-01-27".to_string());
    options
        .template_args
        .insert("time".to_string(), "14:30".to_string());
    let result = replace_template_variables("{date} {time}", &options).unwrap();
    assert_eq!(result, "2025-01-27 14:30");
}

#[test]
fn test_error_messages() {
    let e = GoodbyeError::CorpusLoadError("x".to_string());
    assert_eq!(e.message(), "Failed to load corpus: x");
    let e = GoodbyeError::InvalidLanguageCodeError("zz".to_string());
    assert_eq!(e.message(), "Invalid language code: zz");
    let e = GoodbyeError::InvalidTimezoneError("tz".to_string());
    assert_eq!(e.message(), "Invalid timezone: tz");
    let e = GoodbyeError::TemplateVariableError("v".to_string());
    assert_eq!(e.message(), "Template variable error: v");
}

#[test]
fn test_sanitize_exact_truncation() {
    let long = "B".repeat(60);
    let sanitized = sanitize_template_value(&long, 50);
    assert_eq!(sanitized, "B".repeat(50));
}

#[test]
fn test_sanitize_keeps_whitespace_controls() {
    // Tabs and newlines are control characters but also whitespace: kept.
    let sanitized = sanitize_template_value("A\tB\nC\x00D", 50);
    assert_eq!(sanitized, "A\tB\nCD");
}

#[test]
fn test_truncation_caps_per_variable() {
    // location is capped at 100, date at 20, time at 10.
    let mut options = CoreGoodbyeOptions::default();
    options
        .template_args
        .insert("location".to_string(), "L".repeat(150));
    options
        .template_args
        .insert("date".to_string(), "D".repeat(30));
    options
        .template_args
        .insert("time".to_string(), "T".repeat(30));
    let result = replace_template_variables("{location}|{date}|{time}", &options).unwrap();
    let expected = format!("{}|{}|{}", "L".repeat(100), "D".repeat(20), "T".repeat(10));
    assert_eq!(result, expected);
}

#[test]
fn test_unrecognized_tokens_left_verbatim() {
    let options = CoreGoodbyeOptions::default();
    let result = replace_template_variables("Hi {stranger}!", &options).unwrap();
    assert_eq!(result, "Hi {stranger}!");
}

#[test]
fn test_language_code_validation() {
    assert!(is_valid_language_code("en"));
    assert!(is_valid_language_code("en-GB"));
    assert!(is_valid_language_code("fr-FR"));
    assert!(!is_valid_language_code("EN"));
    assert!(!is_valid_language_code("e"));
    assert!(!is_valid_language_code("en-gb"));
    assert!(!is_valid_language_code("en-GBR"));
    assert!(!is_valid_language_code("eng"));
    assert!(!is_valid_language_code(""));
    assert!(!is_valid_language_code("en-"));
}

#[test]
fn test_timezone_validation() {
    assert!(is_valid_timezone("Europe/London"));
    assert!(is_valid_timezone("America/New_York"));
    assert!(!is_valid_timezone("London"));
    assert!(!is_valid_timezone(""));
}
