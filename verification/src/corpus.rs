//! The message corpus: parsing the embedded corpus text line by line,
//! the single-message fallback corpus, the language index grouping message
//! positions by language code, and a shared read-only handle.

use crate::emoji::{has_emoji_spec, has_emojis, is_emoji};
use crate::error::GoodbyeError;
use crate::template::is_whitespace_spec;
use crate::text::{lemma_filter_singleton, str_chars, str_eq, string_from_chars};
use std::sync::Arc;
use vstd::prelude::*;
use vstd::string::StringExecFns;

verus! {

/// A single message template.
#[derive(Debug, Clone)]
pub struct MessageTemplate {
    /// The template string with optional variables like `{name}`,
    /// `{location}`, `{date}`, `{time}`.
    pub template: String,
    /// Language code, such as "en-GB".
    pub language_code: String,
    /// Whether this message contains emojis.
    pub has_emojis: bool,
}

/// The positions of all messages sharing one language code, in corpus order.
#[derive(Debug, Clone)]
pub struct LanguageBucket {
    /// The language code shared by the messages of this bucket.
    pub language_code: String,
    /// Positions into the corpus message list.
    pub indices: Vec<usize>,
}

/// Collection of message templates with a language index.
#[derive(Debug, Clone)]
pub struct MessageCorpus {
    /// All messages in the corpus.
    pub messages: Vec<MessageTemplate>,
    /// Buckets of message positions, one per language code.
    pub language_index: Vec<LanguageBucket>,
}

/// `s` without its leading whitespace.
pub open spec fn trim_start_spec(s: Seq<char>) -> Seq<char>
    decreases s.len(),
{
    if s.len() > 0 && is_whitespace_spec(s[0]) {
        trim_start_spec(s.drop_first())
    } else {
        s
    }
}

/// `s` without its trailing whitespace.
pub open spec fn trim_end_spec(s: Seq<char>) -> Seq<char>
    decreases s.len(),
{
    if s.len() > 0 && is_whitespace_spec(s.last()) {
        trim_end_spec(s.drop_last())
    } else {
        s
    }
}

/// `s` without leading and trailing whitespace.
pub open spec fn trim_spec(s: Seq<char>) -> Seq<char> {
    trim_end_spec(trim_start_spec(s))
}

/// The lines of `text`, split at newline characters; a trailing newline ends
/// the last line rather than opening an empty one.
pub open spec fn split_lines_spec(text: Seq<char>) -> Seq<Seq<char>>
    decreases text.len(),
{
    if text.len() == 0 {
        Seq::empty()
    } else if text[0] == '\n' {
        seq![Seq::<char>::empty()] + split_lines_spec(text.drop_first())
    } else {
        let rest = split_lines_spec(text.drop_first());
        if rest.len() == 0 {
            seq![text]
        } else {
            seq![seq![text[0]] + rest[0]] + rest.drop_first()
        }
    }
}

/// The message texts of the corpus source: each line trimmed, keeping the
/// lines that are non-empty and do not start with '#'.
pub open spec fn corpus_messages_spec(text: Seq<char>) -> Seq<Seq<char>> {
    split_lines_spec(text).map_values(|l: Seq<char>| trim_spec(l)).filter(
        |t: Seq<char>| t.len() > 0 && t[0] != '#',
    )
}

fn is_whitespace_exec(c: char) -> (r: bool)
    ensures
        r == is_whitespace_spec(c),
{
    let u = c as u32;
    (0x09 <= u && u <= 0x0D) || u == 0x20 || u == 0x85 || u == 0xA0 || u == 0x1680 || (0x2000 <= u
        && u <= 0x200A) || u == 0x2028 || u == 0x2029 || u == 0x202F || u == 0x205F || u == 0x3000
}

/// Trim leading and trailing whitespace from a character sequence.
fn trim_chars(v: &Vec<char>) -> (out: Vec<char>)
    ensures
        out@ == trim_spec(v@),
{
    let n = v.len();
    let mut a: usize = 0;
    proof {
        assert(v@.skip(0) =~= v@);
    }
    while a < n && is_whitespace_exec(v[a])
        invariant
            a <= n,
            n == v@.len(),
            trim_start_spec(v@) == trim_start_spec(v@.skip(a as int)),
        decreases n - a,
    {
        proof {
            assert(v@.skip(a as int).drop_first() =~= v@.skip(a + 1));
        }
        a = a + 1;
    }
    let ghost x = v@.skip(a as int);
    proof {
        assert(trim_start_spec(v@) == x);
        assert(x.take(x.len() as int) =~= x);
    }
    let mut b: usize = n;
    while b > a && is_whitespace_exec(v[b - 1])
        invariant
            a <= b <= n,
            n == v@.len(),
            x == v@.skip(a as int),
            trim_end_spec(x) == trim_end_spec(x.take(b - a)),
        decreases b,
    {
        proof {
            let part = x.take(b - a);
            assert(part.last() == v@[b - 1]);
            assert(part.drop_last() =~= x.take(b - 1 - a));
        }
        b = b - 1;
    }
    proof {
        if b == a {
            assert(x.take(0).len() == 0);
        } else {
            assert(x.take(b - a).last() == v@[b - 1]);
        }
        assert(trim_end_spec(x) == x.take(b - a));
    }
    let mut out: Vec<char> = Vec::new();
    let mut i: usize = a;
    while i < b
        invariant
            a <= i <= b <= n,
            n == v@.len(),
            out@ == v@.subrange(a as int, i as int),
        decreases b - i,
    {
        out.push(v[i]);
        proof {
            assert(v@.subrange(a as int, i + 1) =~= v@.subrange(a as int, i as int).push(
                v@[i as int],
            ));
        }
        i = i + 1;
    }
    proof {
        assert(x.take(b - a) =~= v@.subrange(a as int, b as int));
    }
    out
}

/// Splitting at the first newline peels off one line.
proof fn lemma_split_at_first_nl(s: Seq<char>, k: int)
    requires
        0 <= k < s.len(),
        s[k] == '\n',
        forall|j: int| 0 <= j < k ==> s[j] != '\n',
    ensures
        split_lines_spec(s) == seq![s.take(k)] + split_lines_spec(s.skip(k + 1)),
    decreases k,
{
    if k == 0 {
        assert(s.take(0) =~= Seq::<char>::empty());
        assert(s.skip(1) =~= s.drop_first());
    } else {
        lemma_split_at_first_nl(s.drop_first(), k - 1);
        let rest = split_lines_spec(s.drop_first());
        assert(rest == seq![s.drop_first().take(k - 1)] + split_lines_spec(
            s.drop_first().skip(k),
        ));
        assert(rest.len() > 0);
        assert(seq![s[0]] + rest[0] =~= s.take(k)) by {
            assert(rest[0] == s.drop_first().take(k - 1));
        }
        assert(s.drop_first().skip(k) =~= s.skip(k + 1));
        assert(rest.drop_first() =~= split_lines_spec(s.skip(k + 1)));
        assert(seq![seq![s[0]] + rest[0]] + rest.drop_first() =~= seq![s.take(k)]
            + split_lines_spec(s.skip(k + 1)));
    }
}

/// The template texts of a message list.
pub open spec fn msgs_templates(msgs: Seq<MessageTemplate>) -> Seq<Seq<char>> {
    msgs.map_values(|m: MessageTemplate| m.template@)
}

/// Every message carries the corpus language code, and its emoji flag agrees
/// with the classifier on its template text.
pub open spec fn msgs_ok(msgs: Seq<MessageTemplate>) -> bool {
    forall|i: int|
        0 <= i < msgs.len() ==> (#[trigger] msgs[i]).language_code@ == "en-GB"@
            && msgs[i].has_emojis == has_emoji_spec(msgs[i].template@)
}

/// A text without newlines is a single line (or nothing at all).
proof fn lemma_split_no_nl(s: Seq<char>)
    requires
        forall|j: int| 0 <= j < s.len() ==> s[j] != '\n',
    ensures
        split_lines_spec(s) == if s.len() == 0 {
            Seq::<Seq<char>>::empty()
        } else {
            seq![s]
        },
    decreases s.len(),
{
    if s.len() > 0 {
        lemma_split_no_nl(s.drop_first());
        if s.len() > 1 {
            assert(seq![seq![s[0]] + s.drop_first()] + split_lines_spec(
                s.drop_first(),
            ).drop_first() =~= seq![s]) by {
                assert(seq![s[0]] + s.drop_first() =~= s);
            }
        } else {
            assert(split_lines_spec(s.drop_first()).len() == 0);
        }
    }
}

/// Parse the corpus source text into message templates: one message per
/// line, trimmed, skipping blank lines and '#'-comments; every message is
/// tagged with the corpus language code and classified for emoji content.
fn parse_messages(text: &str) -> (msgs: Vec<MessageTemplate>)
    ensures
        msgs_templates(msgs@) == corpus_messages_spec(text@),
        msgs_ok(msgs@),
{
    let v = str_chars(text);
    let n = v.len();
    let mut msgs: Vec<MessageTemplate> = Vec::new();
    let mut start: usize = 0;
    proof {
        assert(v@.skip(0) =~= v@);
        assert(msgs_templates(msgs@) =~= Seq::<Seq<char>>::empty());
        assert(Seq::<Seq<char>>::empty() + corpus_messages_spec(v@) =~= corpus_messages_spec(v@));
    }
    while start < n
        invariant
            start <= n,
            n == v@.len(),
            v@ == text@,
            msgs_ok(msgs@),
            corpus_messages_spec(text@) == msgs_templates(msgs@) + corpus_messages_spec(
                v@.skip(start as int),
            ),
        decreases n - start,
    {
        let mut line: Vec<char> = Vec::new();
        let mut k: usize = start;
        while k < n && v[k] != '\n'
            invariant
                start <= k <= n,
                n == v@.len(),
                line@ == v@.subrange(start as int, k as int),
                forall|j: int| start <= j < k ==> v@[j] != '\n',
            decreases n - k,
        {
            line.push(v[k]);
            proof {
                assert(v@.subrange(start as int, k + 1) =~= v@.subrange(start as int, k as int).push(
                    v@[k as int],
                ));
            }
            k = k + 1;
        }
        let ghost rest = v@.skip(start as int);
        let ghost lineview = v@.subrange(start as int, k as int);
        let ghost tail = if k < n {
            v@.skip(k + 1)
        } else {
            v@.skip(k as int)
        };
        proof {
            if k < n {
                assert(rest[k - start] == '\n');
                assert forall|j: int| 0 <= j < k - start implies rest[j] != '\n' by {
                    assert(rest[j] == v@[start + j]);
                }
                lemma_split_at_first_nl(rest, k - start);
                assert(rest.take(k - start) =~= lineview);
                assert(rest.skip(k - start + 1) =~= v@.skip(k + 1));
            } else {
                assert forall|j: int| 0 <= j < rest.len() implies rest[j] != '\n' by {
                    assert(rest[j] == v@[start + j]);
                }
                lemma_split_no_nl(rest);
                assert(rest =~= lineview);
                assert(v@.skip(k as int).len() == 0);
                assert(seq![lineview] + split_lines_spec(tail) =~= seq![lineview]);
            }
            assert(split_lines_spec(rest) == seq![lineview] + split_lines_spec(tail));
            let f = |l: Seq<char>| trim_spec(l);
            let pred = |t: Seq<char>| t.len() > 0 && t[0] != '#';
            assert((seq![lineview] + split_lines_spec(tail)).map_values(f) =~= seq![
                trim_spec(lineview),
            ] + split_lines_spec(tail).map_values(f));
            Seq::filter_distributes_over_add(
                seq![trim_spec(lineview)],
                split_lines_spec(tail).map_values(f),
                pred,
            );
            lemma_filter_singleton(trim_spec(lineview), pred);
            assert(corpus_messages_spec(rest) == (if pred(trim_spec(lineview)) {
                seq![trim_spec(lineview)]
            } else {
                Seq::<Seq<char>>::empty()
            }) + corpus_messages_spec(tail));
        }
        let trimmed = trim_chars(&line);
        let ghost msgs0 = msgs@;
        if trimmed.len() > 0 && trimmed[0] != '#' {
            let t_str = string_from_chars(&trimmed);
            let has = has_emojis(t_str.as_str());
            let template = MessageTemplate {
                template: t_str,
                language_code: String::from_str("en-GB"),
                has_emojis: has,
            };
            msgs.push(template);
            proof {
                assert(msgs_templates(msgs@) =~= msgs_templates(msgs0).push(trimmed@));
                assert(msgs_templates(msgs0) + corpus_messages_spec(rest) =~= msgs_templates(msgs@)
                    + corpus_messages_spec(tail));
            }
        } else {
            proof {
                assert(corpus_messages_spec(rest) == corpus_messages_spec(tail)) by {
                    assert(Seq::<Seq<char>>::empty() + corpus_messages_spec(tail)
                        =~= corpus_messages_spec(tail));
                }
            }
        }
        start = if k < n {
            k + 1
        } else {
            k
        };
    }
    proof {
        assert(v@.skip(n as int).len() == 0);
        assert(corpus_messages_spec(v@.skip(n as int)) =~= Seq::<Seq<char>>::empty()) by {
            reveal(Seq::filter);
            assert(split_lines_spec(v@.skip(n as int)) == Seq::<Seq<char>>::empty());
            assert(split_lines_spec(v@.skip(n as int)).map_values(|l: Seq<char>| trim_spec(l))
                =~= Seq::<Seq<char>>::empty());
        }
        assert(msgs_templates(msgs@) + Seq::<Seq<char>>::empty() =~= msgs_templates(msgs@));
    }
    msgs
}

/// The bucket stored for `lang`: the first bucket whose language matches, if
/// any.
pub open spec fn spec_bucket(index: Seq<LanguageBucket>, lang: Seq<char>) -> Option<Seq<usize>>
    decreases index.len(),
{
    if index.len() == 0 {
        None
    } else if index[0].language_code@ == lang {
        Some(index[0].indices@)
    } else {
        spec_bucket(index.drop_first(), lang)
    }
}

/// A sequence of positions as mathematical integers.
pub open spec fn to_ints(s: Seq<usize>) -> Seq<int> {
    s.map_values(|u: usize| u as int)
}

/// The positions `i < n` whose message carries language `lang`, in order.
pub open spec fn positions_upto(msgs: Seq<MessageTemplate>, lang: Seq<char>, n: int) -> Seq<int> {
    Seq::new(n as nat, |i: int| i).filter(|i: int| msgs[i].language_code@ == lang)
}

/// The positions of all messages carrying language `lang`, in corpus order.
pub open spec fn positions_spec(msgs: Seq<MessageTemplate>, lang: Seq<char>) -> Seq<int> {
    positions_upto(msgs, lang, msgs.len() as int)
}

/// Whether some message carries language `lang`.
pub open spec fn has_msg_lang(msgs: Seq<MessageTemplate>, lang: Seq<char>) -> bool {
    exists|i: int| 0 <= i < msgs.len() && (#[trigger] msgs[i]).language_code@ == lang
}

/// Extending the scanned prefix by one position extends the position list
/// exactly when that message carries the language.
proof fn lemma_positions_step(msgs: Seq<MessageTemplate>, lang: Seq<char>, n: int)
    requires
        0 <= n,
    ensures
        positions_upto(msgs, lang, n + 1) == if msgs[n].language_code@ == lang {
            positions_upto(msgs, lang, n).push(n)
        } else {
            positions_upto(msgs, lang, n)
        },
{
    reveal(Seq::filter);
    let domain = Seq::new((n + 1) as nat, |i: int| i);
    assert(domain.drop_last() =~= Seq::new(n as nat, |i: int| i));
    assert(domain.last() == n);
}

/// The lookup returns the bucket at the first position whose language
/// matches.
pub proof fn lemma_bucket_found(index: Seq<LanguageBucket>, lang: Seq<char>, j: int)
    requires
        0 <= j < index.len(),
        index[j].language_code@ == lang,
        forall|i: int| 0 <= i < j ==> (#[trigger] index[i]).language_code@ != lang,
    ensures
        spec_bucket(index, lang) == Some(index[j].indices@),
    decreases j,
{
    if j > 0 {
        lemma_bucket_found(index.drop_first(), lang, j - 1);
    }
}

/// A successful lookup comes from some bucket of the index.
pub proof fn lemma_bucket_inversion(index: Seq<LanguageBucket>, lang: Seq<char>)
    requires
        spec_bucket(index, lang) is Some,
    ensures
        exists|j: int|
            0 <= j < index.len() && (#[trigger] index[j]).language_code@ == lang
                && index[j].indices@ == spec_bucket(index, lang)->Some_0,
    decreases index.len(),
{
    if index.len() > 0 {
        if index[0].language_code@ == lang {
            assert(index[0].language_code@ == lang && index[0].indices@ == spec_bucket(
                index,
                lang,
            )->Some_0);
        } else {
            lemma_bucket_inversion(index.drop_first(), lang);
            let j = choose|j: int|
                0 <= j < index.drop_first().len() && (#[trigger] index.drop_first()[j]).language_code@
                    == lang && index.drop_first()[j].indices@ == spec_bucket(
                    index.drop_first(),
                    lang,
                )->Some_0;
            assert(index[j + 1].language_code@ == lang && index[j + 1].indices@ == spec_bucket(
                index,
                lang,
            )->Some_0);
        }
    }
}

/// Whether one of `langs` views as `l`.
spec fn has_lang(langs: Seq<String>, l: Seq<char>) -> bool {
    exists|k: int| 0 <= k < langs.len() && (#[trigger] langs[k])@ == l
}

fn contains_lang(langs: &Vec<String>, s: &str) -> (r: bool)
    ensures
        r == has_lang(langs@, s@),
{
    let mut k: usize = 0;
    while k < langs.len()
        invariant
            k <= langs@.len(),
            forall|j: int| 0 <= j < k ==> (#[trigger] langs@[j])@ != s@,
        decreases langs@.len() - k,
    {
        if str_eq(langs[k].as_str(), s) {
            return true;
        }
        k = k + 1;
    }
    false
}

/// The distinct language codes of the messages, in order of first
/// appearance.
fn collect_languages(messages: &Vec<MessageTemplate>) -> (langs: Vec<String>)
    ensures
        forall|a: int, b: int|
            0 <= a < b < langs@.len() ==> (#[trigger] langs@[a])@ != (#[trigger] langs@[b])@,
        forall|i: int|
            0 <= i < messages@.len() ==> has_lang(langs@, (#[trigger] messages@[i]).language_code@),
        forall|k: int|
            0 <= k < langs@.len() ==> has_msg_lang(messages@, (#[trigger] langs@[k])@),
{
    let mut langs: Vec<String> = Vec::new();
    let mut i: usize = 0;
    while i < messages.len()
        invariant
            i <= messages@.len(),
            forall|a: int, b: int|
                0 <= a < b < langs@.len() ==> (#[trigger] langs@[a])@ != (#[trigger] langs@[b])@,
            forall|j: int|
                0 <= j < i ==> has_lang(langs@, (#[trigger] messages@[j]).language_code@),
            forall|k: int|
                0 <= k < langs@.len() ==> has_msg_lang(messages@, (#[trigger] langs@[k])@),
        decreases messages@.len() - i,
    {
        if !contains_lang(&langs, messages[i].language_code.as_str()) {
            let ghost langs0 = langs@;
            langs.push(messages[i].language_code.clone());
            proof {
                assert(langs@[langs@.len() - 1]@ == messages@[i as int].language_code@);
                assert forall|j: int| 0 <= j <= i implies has_lang(
                    langs@,
                    (#[trigger] messages@[j]).language_code@,
                ) by {
                    if j < i {
                        let k = choose|k: int|
                            0 <= k < langs0.len() && (#[trigger] langs0[k])@
                                == messages@[j].language_code@;
                        assert(langs@[k]@ == messages@[j].language_code@);
                    } else {
                        assert(langs@[langs@.len() - 1]@ == messages@[j].language_code@);
                    }
                }
                assert forall|k: int| 0 <= k < langs@.len() implies has_msg_lang(
                    messages@,
                    (#[trigger] langs@[k])@,
                ) by {
                    if k < langs0.len() {
                        assert(langs@[k] == langs0[k]);
                    } else {
                        assert(0 <= i < messages@.len() && messages@[i as int].language_code@
                            == langs@[k]@);
                    }
                }
            }
        }
        i = i + 1;
    }
    langs
}

/// The positions of all messages carrying language `lang`, in corpus order.
fn bucket_positions(messages: &Vec<MessageTemplate>, lang: &str) -> (idxs: Vec<usize>)
    ensures
        to_ints(idxs@) == positions_spec(messages@, lang@),
        forall|j: int| 0 <= j < idxs@.len() ==> (#[trigger] idxs@[j]) < messages@.len(),
{
    let mut idxs: Vec<usize> = Vec::new();
    let mut i: usize = 0;
    proof {
        reveal(Seq::filter);
        assert(Seq::new(0, |i: int| i).len() == 0);
        assert(to_ints(idxs@) =~= positions_upto(messages@, lang@, 0));
    }
    while i < messages.len()
        invariant
            i <= messages@.len(),
            to_ints(idxs@) == positions_upto(messages@, lang@, i as int),
            forall|j: int| 0 <= j < idxs@.len() ==> (#[trigger] idxs@[j]) < messages@.len(),
        decreases messages@.len() - i,
    {
        proof {
            lemma_positions_step(messages@, lang@, i as int);
        }
        if str_eq(messages[i].language_code.as_str(), lang) {
            let ghost idxs0 = idxs@;
            idxs.push(i);
            proof {
                assert(to_ints(idxs@) =~= to_ints(idxs0).push(i as int));
            }
        }
        i = i + 1;
    }
    idxs
}

/// Group message positions by language code, preserving corpus order within
/// each group.
fn build_index(messages: &Vec<MessageTemplate>) -> (index: Vec<LanguageBucket>)
    ensures
        forall|a: int, b: int|
            0 <= a < b < index@.len() ==> (#[trigger] index@[a]).language_code@ != (
            #[trigger] index@[b]).language_code@,
        forall|lang: Seq<char>|
            #[trigger] spec_bucket(index@, lang) is Some <==> has_msg_lang(messages@, lang),
        forall|lang: Seq<char>|
            #[trigger] spec_bucket(index@, lang) matches Some(idxs) ==> to_ints(idxs)
                == positions_spec(messages@, lang) && (forall|j: int|
                0 <= j < idxs.len() ==> (#[trigger] idxs[j]) < messages@.len()),
{
    let langs = collect_languages(messages);
    let mut index: Vec<LanguageBucket> = Vec::new();
    let mut k: usize = 0;
    while k < langs.len()
        invariant
            k <= langs@.len(),
            index@.len() == k,
            forall|a: int, b: int|
                0 <= a < b < langs@.len() ==> (#[trigger] langs@[a])@ != (#[trigger] langs@[b])@,
            forall|i: int|
                0 <= i < messages@.len() ==> has_lang(
                    langs@,
                    (#[trigger] messages@[i]).language_code@,
                ),
            forall|j: int|
                0 <= j < langs@.len() ==> has_msg_lang(messages@, (#[trigger] langs@[j])@),
            forall|j: int|
                0 <= j < k ==> (#[trigger] index@[j]).language_code@ == langs@[j]@ && to_ints(
                    index@[j].indices@,
                ) == positions_spec(messages@, langs@[j]@) && (forall|m: int|
                    0 <= m < index@[j].indices@.len() ==> (#[trigger] index@[j].indices@[m])
                        < messages@.len()),
        decreases langs@.len() - k,
    {
        let idxs = bucket_positions(messages, langs[k].as_str());
        index.push(LanguageBucket { language_code: langs[k].clone(), indices: idxs });
        k = k + 1;
    }
    proof {
        assert forall|lang: Seq<char>| #[trigger]
            spec_bucket(index@, lang) is Some <==> has_msg_lang(messages@, lang) by {
            if has_msg_lang(messages@, lang) {
                let i = choose|i: int|
                    0 <= i < messages@.len() && (#[trigger] messages@[i]).language_code@ == lang;
                assert(has_lang(langs@, lang));
                let j = choose|j: int| 0 <= j < langs@.len() && (#[trigger] langs@[j])@ == lang;
                assert forall|m: int| 0 <= m < j implies (#[trigger] index@[m]).language_code@
                    != lang by {
                    assert(langs@[m]@ != langs@[j]@);
                }
                lemma_bucket_found(index@, lang, j);
            }
            if spec_bucket(index@, lang) is Some {
                lemma_bucket_inversion(index@, lang);
                let j = choose|j: int|
                    0 <= j < index@.len() && (#[trigger] index@[j]).language_code@ == lang
                        && index@[j].indices@ == spec_bucket(index@, lang)->Some_0;
                assert(has_msg_lang(messages@, langs@[j]@));
            }
        }
        assert forall|lang: Seq<char>| #[trigger] spec_bucket(index@, lang) is Some implies {
            let idxs = spec_bucket(index@, lang)->Some_0;
            to_ints(idxs) == positions_spec(messages@, lang) && (forall|j: int|
                0 <= j < idxs.len() ==> (#[trigger] idxs[j]) < messages@.len())
        } by {
            lemma_bucket_inversion(index@, lang);
            let j = choose|j: int|
                0 <= j < index@.len() && (#[trigger] index@[j]).language_code@ == lang
                    && index@[j].indices@ == spec_bucket(index@, lang)->Some_0;
            assert(to_ints(index@[j].indices@) == positions_spec(messages@, langs@[j]@));
        }
    }
    index
}

/// Every stored position is a valid position into the message list.
pub open spec fn corpus_wf(c: &MessageCorpus) -> bool {
    forall|i: int, j: int|
        0 <= i < c.language_index@.len() && 0 <= j < c.language_index@[i].indices@.len() ==> (
        #[trigger] c.language_index@[i].indices@[j]) < c.messages@.len()
}

/// The language index is exactly the grouping of message positions by
/// language code: one bucket per language that occurs, holding the positions
/// of precisely the messages carrying it, in corpus order.
pub open spec fn corpus_indexed(c: &MessageCorpus) -> bool {
    &&& forall|a: int, b: int|
        0 <= a < b < c.language_index@.len() ==> (#[trigger] c.language_index@[a]).language_code@
            != (#[trigger] c.language_index@[b]).language_code@
    &&& forall|lang: Seq<char>|
        #[trigger] spec_bucket(c.language_index@, lang) is Some <==> has_msg_lang(
            c.messages@,
            lang,
        )
    &&& forall|lang: Seq<char>|
        #[trigger] spec_bucket(c.language_index@, lang) matches Some(idxs) ==> to_ints(idxs)
            == positions_spec(c.messages@, lang)
}

/// The single message of the fallback corpus.
pub open spec fn fallback_template() -> Seq<char> {
    "Wishing you a joyous day, {name} ❤️"@
}

/// The corpus served when the corpus source yields no messages: one message,
/// language "en-GB", indexed under that single key.
pub open spec fn is_fallback_corpus(c: &MessageCorpus) -> bool {
    &&& c.messages@.len() == 1
    &&& c.messages@[0].template@ == fallback_template()
    &&& c.messages@[0].has_emojis == true
    &&& msgs_ok(c.messages@)
    &&& c.language_index@.len() == 1
    &&& c.language_index@[0].language_code@ == "en-GB"@
    &&& c.language_index@[0].indices@ == seq![0usize]
}

/// The fallback message does hold an emoji: the heart near its end.
proof fn lemma_fallback_has_emoji()
    ensures
        has_emoji_spec(fallback_template()),
{
    reveal_strlit("Wishing you a joyous day, {name} ❤️");
    assert(fallback_template()[33] == '❤');
    assert(is_emoji(fallback_template()[33]));
}

/// Create the fallback corpus: a single canned message under "en-GB". Used
/// when the corpus source is empty or corrupted.
pub fn create_fallback_corpus() -> (c: MessageCorpus)
    ensures
        is_fallback_corpus(&c),
        corpus_wf(&c),
        corpus_indexed(&c),
{
    let template_str = String::from_str("Wishing you a joyous day, {name} ❤️");
    let has = has_emojis(template_str.as_str());
    let fallback = MessageTemplate {
        template: template_str,
        language_code: String::from_str("en-GB"),
        has_emojis: has,
    };
    let mut messages: Vec<MessageTemplate> = Vec::new();
    messages.push(fallback);
    let mut indices: Vec<usize> = Vec::new();
    indices.push(0);
    let mut language_index: Vec<LanguageBucket> = Vec::new();
    language_index.push(LanguageBucket { language_code: String::from_str("en-GB"), indices });
    let c = MessageCorpus { messages, language_index };
    proof {
        lemma_fallback_has_emoji();
        assert(c.language_index@[0].indices@ =~= seq![0usize]);
        let index = c.language_index@;
        let msgs = c.messages@;
        assert forall|lang: Seq<char>| #[trigger] spec_bucket(index, lang) is Some <==> has_msg_lang(
            msgs,
            lang,
        ) by {
            if lang == "en-GB"@ {
                assert(spec_bucket(index, lang) == Some(index[0].indices@));
                assert(msgs[0].language_code@ == lang);
            } else {
                assert(spec_bucket(index, lang) == spec_bucket(index.drop_first(), lang));
                assert(index.drop_first().len() == 0);
                assert forall|i: int| 0 <= i < msgs.len() implies (#[trigger] msgs[i]).language_code@
                    != lang by {}
            }
        }
        assert forall|lang: Seq<char>| #[trigger] spec_bucket(index, lang) is Some implies to_ints(
            spec_bucket(index, lang)->Some_0,
        ) == positions_spec(msgs, lang) by {
            assert(lang == "en-GB"@);
            reveal_with_fuel(Seq::filter, 2);
            let domain = Seq::new(1nat, |i: int| i);
            assert(domain.drop_last() =~= Seq::new(0nat, |i: int| i));
            assert(domain.last() == 0);
            assert(positions_spec(msgs, lang) =~= seq![0int]);
            assert(to_ints(seq![0usize]) =~= seq![0int]);
        }
    }
    c
}

/// Build a corpus from its source text: parse the messages and group their
/// positions by language; if no message survives parsing, serve the fallback
/// corpus instead.
pub fn build_corpus(text: &str) -> (c: MessageCorpus)
    ensures
        corpus_wf(&c),
        corpus_indexed(&c),
        msgs_ok(c.messages@),
        corpus_messages_spec(text@).len() == 0 ==> is_fallback_corpus(&c),
        corpus_messages_spec(text@).len() > 0 ==> msgs_templates(c.messages@)
            == corpus_messages_spec(text@),
{
    let msgs = parse_messages(text);
    if msgs.len() == 0 {
        proof {
            assert(corpus_messages_spec(text@).len() == 0);
        }
        create_fallback_corpus()
    } else {
        let language_index = build_index(&msgs);
        let c = MessageCorpus { messages: msgs, language_index };
        proof {
            assert forall|i: int, j: int|
                0 <= i < c.language_index@.len() && 0 <= j
                    < c.language_index@[i].indices@.len() implies (
            #[trigger] c.language_index@[i].indices@[j]) < c.messages@.len() by {
                let lang = c.language_index@[i].language_code@;
                assert forall|m: int| 0 <= m < i implies (#[trigger] c.language_index@[m]).language_code@
                    != lang by {}
                lemma_bucket_found(c.language_index@, lang, i);
            }
        }
        c
    }
}

/// Load the message corpus from the embedded corpus source. The embedded
/// source currently holds no messages, so the fallback corpus is served; a
/// populated source would be parsed by the same path as [`build_corpus`].
/// The fallback is always constructible, so this never fails.
pub fn load_corpus() -> (r: Result<MessageCorpus, GoodbyeError>)
    ensures
        r is Ok,
        r matches Ok(c) ==> corpus_wf(&c) && corpus_indexed(&c) && is_fallback_corpus(&c),
{
    let c = build_corpus("");
    proof {
        reveal_strlit("");
        assert(""@.len() == 0);
        assert(split_lines_spec(""@) == Seq::<Seq<char>>::empty());
        assert(corpus_messages_spec(""@).len() == 0) by {
            reveal(Seq::filter);
            assert(split_lines_spec(""@).map_values(|l: Seq<char>| trim_spec(l)) =~= Seq::<
                Seq<char>,
            >::empty());
        }
    }
    Ok(c)
}

impl MessageCorpus {
    /// The positions of the messages for `lang`, if that language is
    /// indexed.
    pub fn bucket_for(&self, lang: &str) -> (r: Option<&Vec<usize>>)
        ensures
            match r {
                Some(b) => spec_bucket(self.language_index@, lang@) == Some(b@),
                None => spec_bucket(self.language_index@, lang@) is None,
            },
    {
        let index = &self.language_index;
        let mut i: usize = 0;
        proof {
            assert(index@.skip(0) =~= index@);
        }
        while i < index.len()
            invariant
                i <= index@.len(),
                index@ == self.language_index@,
                spec_bucket(index@, lang@) == spec_bucket(index@.skip(i as int), lang@),
            decreases index@.len() - i,
        {
            if str_eq(index[i].language_code.as_str(), lang) {
                proof {
                    assert(index@.skip(i as int)[0] == index@[i as int]);
                }
                return Some(&index[i].indices);
            }
            proof {
                assert(index@.skip(i as int).drop_first() =~= index@.skip(i + 1));
            }
            i = i + 1;
        }
        proof {
            assert(index@.skip(index@.len() as int).len() == 0);
        }
        None
    }
}

/// Relies on Arc::clone: returns a new reference-counted handle to the same
/// shared allocation, without copying the corpus.
#[verifier::external_body]
fn share_corpus(a: &Arc<MessageCorpus>) -> (r: Arc<MessageCorpus>)
    ensures
        r == *a,
{
    Arc::clone(a)
}

/// A process-wide handle to the corpus: the corpus is built exactly once,
/// when the store is created, and every load hands out a shared reference to
/// that same immutable instance.
pub struct CorpusStore {
    corpus: Arc<MessageCorpus>,
}

impl CorpusStore {
    /// The corpus this store shares.
    pub closed spec fn spec_corpus(&self) -> MessageCorpus {
        *self.corpus
    }

    /// Build the corpus once and wrap it for shared read-only access.
    pub fn new() -> (r: Self)
        ensures
            corpus_wf(&r.spec_corpus()),
            corpus_indexed(&r.spec_corpus()),
            is_fallback_corpus(&r.spec_corpus()),
    {
        let c = match load_corpus() {
            Ok(c) => c,
            Err(_) => create_fallback_corpus(),
        };
        CorpusStore { corpus: Arc::new(c) }
    }

    /// Shared access to the cached corpus: every call returns a handle to
    /// the identical instance, with no reparsing and no reconstruction.
    pub fn load(&self) -> (r: Arc<MessageCorpus>)
        ensures
            *r == self.spec_corpus(),
    {
        share_corpus(&self.corpus)
    }
}

} // verus!
