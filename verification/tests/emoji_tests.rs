use joy_generator::emoji::{has_emojis, is_emoji_char, strip_emojis};

#[test]
fn test_strip_emojis() {
    let text = "Hello ❤️ World ✨";
    let result = strip_emojis(text);
    assert_eq!(result, "Hello  World ");
}

#[test]
fn test_has_emojis() {
    assert!(has_emojis("Hello ❤️"));
    assert!(!has_emojis("Hello World"));
}

#[test]
fn test_strip_no_emojis() {
    let text = "Hello World";
    let result = strip_emojis(text);
    assert_eq!(result, "Hello World");
}

#[test]
fn test_emoji_detection() {
    assert!(has_emojis("Hello ❤️"));
    assert!(has_emojis("Wishing you well ✨"));
    assert!(has_emojis("Take care 🌻"));
    assert!(!has_emojis("Hello World"));
    assert!(!has_emojis("Until we meet again"));
}

#[test]
fn test_emoji_stripping() {
    let text = "Hello ❤️ World ✨";
    let result = strip_emojis(text);
    assert_eq!(result, "Hello  World ");
    assert!(!has_emojis(&result));
}

#[test]
fn test_emoji_preservation_when_not_stripped() {
    let text = "Hello ❤️ World ✨";
    // When not stripping, emojis should remain
    assert!(has_emojis(text));
}

#[test]
fn emoji_test_test_strip_no_emojis() {
    let text = "Hello World";
    let result = strip_emojis(text);
    assert_eq!(result, "Hello World");
}

#[test]
fn test_strip_multiple_emojis() {
    let text = "Wishing you ❤️ joy ✨ and 🌻 peace 🕊️";
    let result = strip_emojis(text);
    assert!(!has_emojis(&result));
    assert!(result.contains("Wishing you"));
    assert!(result.contains("joy"));
    assert!(result.contains("peace"));
}

#[test]
fn test_emoji_only_string() {
    let text = "❤️✨🌻";
    let result = strip_emojis(text);
    assert_eq!(result, "");
}

#[test]
fn test_is_emoji_char_table() {
    // Singletons and range members of the classification table.
    assert!(is_emoji_char('❤'));
    assert!(is_emoji_char('✨'));
    assert!(is_emoji_char('🌻'));
    assert!(is_emoji_char('\u{200D}')); // zero-width joiner
    assert!(is_emoji_char('\u{FE0F}')); // variation selector
    assert!(is_emoji_char('\u{1F1E6}')); // regional indicator
    assert!(is_emoji_char('☀')); // weather, U+2600
    assert!(is_emoji_char('♻')); // recycling, U+267B
    // Ordinary characters are not classified as emoji.
    assert!(!is_emoji_char('A'));
    assert!(!is_emoji_char(' '));
    assert!(!is_emoji_char('é'));
    assert!(!is_emoji_char('\u{3000}')); // ideographic space
}

#[test]
fn test_strip_idempotent_on_samples() {
    for text in ["Hello ❤️ World ✨", "❤️✨🌻", "plain", "", "a🕊️b"] {
        let once = strip_emojis(text);
        let twice = strip_emojis(&once);
        assert_eq!(once, twice);
        assert!(!has_emojis(&once));
    }
}
