//! Emoji classification over a fixed table of Unicode code-point ranges,
//! and stripping or detecting emoji in text.

use crate::text::{lemma_filter_all, lemma_filter_push, str_chars, string_from_chars};
use vstd::prelude::*;

verus! {

/// The fixed classification table: a character is an emoji exactly when its
/// code point lies in one of these ranges or singletons (pictographs,
/// emoticons, miscellaneous symbols, dingbats, variation selectors,
/// supplemental pictographs, regional indicators, extended-A symbols, the
/// zero-width joiner, the combining enclosing keycap, and an enumerated list
/// of individual symbols and sub-ranges).
pub open spec fn is_emoji(c: char) -> bool {
    let code = c as u32;
    ||| (0x1F300 <= code && code <= 0x1F9FF)  // Miscellaneous Symbols and Pictographs, Emoticons
    ||| (0x2600 <= code && code <= 0x26FF)  // Miscellaneous Symbols
    ||| (0x2700 <= code && code <= 0x27BF)  // Dingbats
    ||| (0xFE00 <= code && code <= 0xFE0F)  // Variation Selectors
    ||| (0x1F900 <= code && code <= 0x1F9FF)  // Supplemental Symbols and Pictographs
    ||| (0x1F1E0 <= code && code <= 0x1F1FF)  // Regional Indicator Symbols (flags)
    ||| (0x1FA00 <= code && code <= 0x1FAFF)  // Symbols and Pictographs Extended-A
    ||| code == 0x200D  // Zero Width Joiner
    ||| code == 0x20E3  // Combining Enclosing Keycap
    ||| code == 0x203C  // Double Exclamation Mark
    ||| code == 0x2049  // Exclamation Question Mark
    ||| code == 0x2122  // Trade Mark Sign
    ||| code == 0x2139  // Information Source
    ||| (0x2194 <= code && code <= 0x2199)  // Arrows
    ||| (0x21A9 <= code && code <= 0x21AA)  // Arrows
    ||| (0x231A <= code && code <= 0x231B)  // Watch, Hourglass
    ||| code == 0x2328  // Keyboard
    ||| code == 0x23CF  // Eject Symbol
    ||| (0x23E9 <= code && code <= 0x23F3)  // Media controls
    ||| (0x23F8 <= code && code <= 0x23FA)  // Media controls
    ||| code == 0x24C2  // Circled Latin Capital Letter M
    ||| (0x25AA <= code && code <= 0x25AB)  // Geometric shapes
    ||| code == 0x25B6  // Play button
    ||| code == 0x25C0  // Reverse button
    ||| (0x25FB <= code && code <= 0x25FE)  // Geometric shapes
    ||| (0x2600 <= code && code <= 0x2604)  // Weather symbols
    ||| code == 0x260E  // Telephone
    ||| code == 0x2611  // Ballot Box with Check
    ||| (0x2614 <= code && code <= 0x2615)  // Umbrella, Hot Beverage
    ||| code == 0x2618  // Shamrock
    ||| code == 0x261D  // Index Pointing Up
    ||| code == 0x2620  // Skull and Crossbones
    ||| (0x2622 <= code && code <= 0x2623)  // Radioactive, Biohazard
    ||| code == 0x2626  // Orthodox Cross
    ||| code == 0x262A  // Star and Crescent
    ||| (0x262E <= code && code <= 0x262F)  // Peace symbols
    ||| (0x2638 <= code && code <= 0x263A)  // Wheel of Dharma, White Smiling Face
    ||| code == 0x2640  // Female Sign
    ||| code == 0x2642  // Male Sign
    ||| (0x2648 <= code && code <= 0x2653)  // Zodiac symbols
    ||| (0x2660 <= code && code <= 0x2668)  // Card suits, music
    ||| code == 0x267B  // Recycling Symbol
    ||| (0x267E <= code && code <= 0x267F)  // Infinity, Wheelchair
    ||| (0x2692 <= code && code <= 0x2697)  // Tools
    ||| code == 0x2699  // Gear
    ||| (0x269B <= code && code <= 0x269C)  // Atom, Fleur-de-lis
    ||| (0x26A0 <= code && code <= 0x26A1)  // Warning, High Voltage
    ||| (0x26AA <= code && code <= 0x26AB)  // White/Black Circle
    ||| (0x26B0 <= code && code <= 0x26B1)  // Coffin, Funeral Urn
    ||| (0x26BD <= code && code <= 0x26BE)  // Soccer Ball, Baseball
    ||| (0x26C4 <= code && code <= 0x26C5)  // Snowman
    ||| code == 0x26C8  // Thunder Cloud and Rain
    ||| code == 0x26CE  // Ophiuchus
    ||| code == 0x26CF  // Pick
    ||| code == 0x26D1  // Helmet with White Cross
    ||| (0x26D3 <= code && code <= 0x26D4)  // Chains, No Entry
    ||| (0x26E9 <= code && code <= 0x26EA)  // Shinto Shrine, Church
    ||| (0x26F0 <= code && code <= 0x26F5)  // Mountain, Beach, etc.
    ||| (0x26F7 <= code && code <= 0x26FA)  // Skier, Ice Skate, etc.
    ||| code == 0x26FD  // Fuel Pump
    ||| code == 0x2702  // Scissors
    ||| code == 0x2705  // White Heavy Check Mark
    ||| (0x2708 <= code && code <= 0x270D)  // Airplane, Envelope, etc.
    ||| code == 0x270F  // Pencil
    ||| code == 0x2712  // Black Nib
    ||| code == 0x2714  // Heavy Check Mark
    ||| code == 0x2716  // Heavy Multiplication X
    ||| code == 0x271D  // Latin Cross
    ||| code == 0x2721  // Star of David
    ||| code == 0x2728  // Sparkles
    ||| (0x2733 <= code && code <= 0x2734)  // Eight-Pointed Star
    ||| code == 0x2744  // Snowflake
    ||| code == 0x2747  // Sparkle
    ||| code == 0x274C  // Cross Mark
    ||| code == 0x274E  // Negative Squared Cross Mark
    ||| (0x2753 <= code && code <= 0x2755)  // Question marks
    ||| code == 0x2757  // Heavy Exclamation Mark
    ||| (0x2763 <= code && code <= 0x2764)  // Heart
    ||| (0x2795 <= code && code <= 0x2797)  // Plus, Minus, Division
    ||| code == 0x27A1  // Rightwards Arrow
    ||| code == 0x27B0  // Curly Loop
    ||| code == 0x27BF  // Double Curly Loop
    ||| (0x2934 <= code && code <= 0x2935)  // Arrows
    ||| (0x2B05 <= code && code <= 0x2B07)  // Arrows
    ||| (0x2B1B <= code && code <= 0x2B1C)  // Black/White Large Square
    ||| code == 0x2B50  // White Medium Star
    ||| code == 0x2B55  // Heavy Large Circle
    ||| code == 0x3030  // Wavy Dash
    ||| code == 0x303D  // Part Alternation Mark
    ||| (0x3297 <= code && code <= 0x3299)  // Circled Ideographs
}

/// Check whether a single character is classified as an emoji.
pub fn is_emoji_char(c: char) -> (r: bool)
    ensures
        r == is_emoji(c),
{
    let code = c as u32;
    (0x1F300 <= code && code <= 0x1F9FF)
        || (0x2600 <= code && code <= 0x26FF)
        || (0x2700 <= code && code <= 0x27BF)
        || (0xFE00 <= code && code <= 0xFE0F)
        || (0x1F900 <= code && code <= 0x1F9FF)
        || (0x1F1E0 <= code && code <= 0x1F1FF)
        || (0x1FA00 <= code && code <= 0x1FAFF)
        || code == 0x200D
        || code == 0x20E3
        || code == 0x203C
        || code == 0x2049
        || code == 0x2122
        || code == 0x2139
        || (0x2194 <= code && code <= 0x2199)
        || (0x21A9 <= code && code <= 0x21AA)
        || (0x231A <= code && code <= 0x231B)
        || code == 0x2328
        || code == 0x23CF
        || (0x23E9 <= code && code <= 0x23F3)
        || (0x23F8 <= code && code <= 0x23FA)
        || code == 0x24C2
        || (0x25AA <= code && code <= 0x25AB)
        || code == 0x25B6
        || code == 0x25C0
        || (0x25FB <= code && code <= 0x25FE)
        || (0x2600 <= code && code <= 0x2604)
        || code == 0x260E
        || code == 0x2611
        || (0x2614 <= code && code <= 0x2615)
        || code == 0x2618
        || code == 0x261D
        || code == 0x2620
        || (0x2622 <= code && code <= 0x2623)
        || code == 0x2626
        || code == 0x262A
        || (0x262E <= code && code <= 0x262F)
        || (0x2638 <= code && code <= 0x263A)
        || code == 0x2640
        || code == 0x2642
        || (0x2648 <= code && code <= 0x2653)
        || (0x2660 <= code && code <= 0x2668)
        || code == 0x267B
        || (0x267E <= code && code <= 0x267F)
        || (0x2692 <= code && code <= 0x2697)
        || code == 0x2699
        || (0x269B <= code && code <= 0x269C)
        || (0x26A0 <= code && code <= 0x26A1)
        || (0x26AA <= code && code <= 0x26AB)
        || (0x26B0 <= code && code <= 0x26B1)
        || (0x26BD <= code && code <= 0x26BE)
        || (0x26C4 <= code && code <= 0x26C5)
        || code == 0x26C8
        || code == 0x26CE
        || code == 0x26CF
        || code == 0x26D1
        || (0x26D3 <= code && code <= 0x26D4)
        || (0x26E9 <= code && code <= 0x26EA)
        || (0x26F0 <= code && code <= 0x26F5)
        || (0x26F7 <= code && code <= 0x26FA)
        || code == 0x26FD
        || code == 0x2702
        || code == 0x2705
        || (0x2708 <= code && code <= 0x270D)
        || code == 0x270F
        || code == 0x2712
        || code == 0x2714
        || code == 0x2716
        || code == 0x271D
        || code == 0x2721
        || code == 0x2728
        || (0x2733 <= code && code <= 0x2734)
        || code == 0x2744
        || code == 0x2747
        || code == 0x274C
        || code == 0x274E
        || (0x2753 <= code && code <= 0x2755)
        || code == 0x2757
        || (0x2763 <= code && code <= 0x2764)
        || (0x2795 <= code && code <= 0x2797)
        || code == 0x27A1
        || code == 0x27B0
        || code == 0x27BF
        || (0x2934 <= code && code <= 0x2935)
        || (0x2B05 <= code && code <= 0x2B07)
        || (0x2B1B <= code && code <= 0x2B1C)
        || code == 0x2B50
        || code == 0x2B55
        || code == 0x3030
        || code == 0x303D
        || (0x3297 <= code && code <= 0x3299)
}

/// The characters of `s` that are not emoji, in order.
pub open spec fn strip_spec(s: Seq<char>) -> Seq<char> {
    s.filter(|c: char| !is_emoji(c))
}

/// Whether `s` holds at least one emoji character.
pub open spec fn has_emoji_spec(s: Seq<char>) -> bool {
    exists|i: int| 0 <= i < s.len() && is_emoji(s[i])
}

/// Stripping is idempotent: stripping an already stripped text changes
/// nothing.
pub proof fn lemma_strip_idempotent(s: Seq<char>)
    ensures
        strip_spec(strip_spec(s)) == strip_spec(s),
{
    let pred = |c: char| !is_emoji(c);
    assert forall|i: int| 0 <= i < strip_spec(s).len() implies pred(#[trigger] strip_spec(s)[i]) by {
        s.lemma_filter_pred(pred, i);
    }
    lemma_filter_all(strip_spec(s), pred);
}

/// A stripped text holds no emoji character at all.
pub proof fn lemma_strip_has_none(s: Seq<char>)
    ensures
        !has_emoji_spec(strip_spec(s)),
{
    let pred = |c: char| !is_emoji(c);
    assert forall|i: int| 0 <= i < strip_spec(s).len() implies !is_emoji(
        #[trigger] strip_spec(s)[i],
    ) by {
        s.lemma_filter_pred(pred, i);
    }
}

/// Drop every emoji character from a string, preserving all other characters
/// and their relative order.
pub fn strip_emojis(text: &str) -> (r: String)
    ensures
        r@ == strip_spec(text@),
        !has_emoji_spec(r@),
{
    let v = str_chars(text);
    let mut out: Vec<char> = Vec::new();
    let mut i: usize = 0;
    while i < v.len()
        invariant
            i <= v@.len(),
            out@ == strip_spec(v@.take(i as int)),
        decreases v@.len() - i,
    {
        let ghost prefix = v@.take(i as int);
        let ghost c = v@[i as int];
        proof {
            assert(v@.take(i + 1) =~= prefix + seq![c]);
            lemma_filter_push(prefix, |c: char| !is_emoji(c), c);
        }
        if !is_emoji_char(v[i]) {
            out.push(v[i]);
        }
        i = i + 1;
    }
    proof {
        assert(v@.take(v@.len() as int) =~= v@);
        lemma_strip_has_none(text@);
    }
    string_from_chars(&out)
}

/// Check whether a string contains any emoji character.
pub fn has_emojis(text: &str) -> (r: bool)
    ensures
        r == has_emoji_spec(text@),
{
    let v = str_chars(text);
    let mut i: usize = 0;
    while i < v.len()
        invariant
            i <= v@.len(),
            v@ == text@,
            forall|j: int| 0 <= j < i ==> !is_emoji(#[trigger] v@[j]),
        decreases v@.len() - i,
    {
        if is_emoji_char(v[i]) {
            return true;
        }
        i = i + 1;
    }
    false
}

} // verus!
