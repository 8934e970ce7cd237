//! Options controlling message generation, and validation helpers for the
//! option fields.

use crate::text::{str_chars, str_eq};
use vstd::prelude::*;
use vstd::string::StringExecFns;

verus! {

/// The named values available for template substitution, keyed by variable
/// name. Later insertions for the same key shadow earlier ones.
#[derive(Debug, Clone)]
pub struct TemplateArgs {
    entries: Vec<(String, String)>,
}

impl View for TemplateArgs {
    type V = Seq<(Seq<char>, Seq<char>)>;

    closed spec fn view(&self) -> Seq<(Seq<char>, Seq<char>)> {
        self.entries@.map_values(|p: (String, String)| (p.0@, p.1@))
    }
}

/// The value bound to `key`: the first entry whose key matches, if any.
pub open spec fn spec_get(m: Seq<(Seq<char>, Seq<char>)>, key: Seq<char>) -> Option<Seq<char>>
    decreases m.len(),
{
    if m.len() == 0 {
        None
    } else if m[0].0 == key {
        Some(m[0].1)
    } else {
        spec_get(m.drop_first(), key)
    }
}

impl TemplateArgs {
    /// An empty argument set.
    pub fn new() -> (r: Self)
        ensures
            r@ == Seq::<(Seq<char>, Seq<char>)>::empty(),
    {
        TemplateArgs { entries: Vec::new() }
    }

    /// Bind `key` to `value`, shadowing any earlier binding of the same key.
    pub fn insert(&mut self, key: String, value: String)
        ensures
            spec_get(final(self)@, key@) == Some(value@),
            forall|k: Seq<char>| k != key@ ==> #[trigger] spec_get(final(self)@, k) == spec_get(
                old(self)@,
                k,
            ),
    {
        self.entries.insert(0, (key, value));
        proof {
            assert(self@.drop_first() =~= old(self)@);
            assert(self@[0].0 == key@);
        }
    }

    /// Look up the value bound to `key`.
    pub fn get(&self, key: &str) -> (r: Option<&String>)
        ensures
            match r {
                Some(v) => spec_get(self@, key@) == Some(v@),
                None => spec_get(self@, key@) is None,
            },
    {
        let mut i: usize = 0;
        proof {
            assert(self@.skip(0) =~= self@);
        }
        while i < self.entries.len()
            invariant
                i <= self.entries@.len(),
                self@.len() == self.entries@.len(),
                forall|j: int| 0 <= j < self@.len() ==> #[trigger] self@[j] == (
                    self.entries@[j].0@,
                    self.entries@[j].1@,
                ),
                spec_get(self@, key@) == spec_get(self@.skip(i as int), key@),
            decreases self.entries@.len() - i,
        {
            if str_eq(self.entries[i].0.as_str(), key) {
                proof {
                    assert(self@.skip(i as int)[0] == self@[i as int]);
                }
                return Some(&self.entries[i].1);
            }
            proof {
                assert(self@.skip(i as int).drop_first() =~= self@.skip(i + 1));
            }
            i = i + 1;
        }
        proof {
            assert(self@.skip(self@.len() as int).len() == 0);
        }
        None
    }
}

/// Core options for generating goodbye messages.
#[derive(Debug, Clone)]
pub struct CoreGoodbyeOptions {
    /// Language code with optional region, such as "en-GB".
    pub language_code: String,
    /// Template variable arguments; recognized keys are "name", "location",
    /// "date" and "time". Unrecognized keys are tolerated and ignored.
    pub template_args: TemplateArgs,
    /// Whether to keep emojis in the generated message.
    pub use_emojis: bool,
    /// IANA timezone identifier, such as "Europe/London".
    pub timezone: String,
}

impl Default for CoreGoodbyeOptions {
    /// The default options: language "en-GB", no arguments, emojis kept,
    /// timezone "Europe/London".
    fn default() -> (r: Self)
        ensures
            r.language_code@ == "en-GB"@,
            r.template_args@ == Seq::<(Seq<char>, Seq<char>)>::empty(),
            r.use_emojis == true,
            r.timezone@ == "Europe/London"@,
    {
        CoreGoodbyeOptions {
            language_code: String::from_str("en-GB"),
            template_args: TemplateArgs::new(),
            use_emojis: true,
            timezone: String::from_str("Europe/London"),
        }
    }
}

/// Whether `s` is a well-formed language code: two lowercase ASCII letters,
/// optionally followed by a hyphen and two uppercase ASCII letters.
pub open spec fn valid_language_code_spec(s: Seq<char>) -> bool {
    let lower = |c: char| 'a' <= c && c <= 'z';
    let upper = |c: char| 'A' <= c && c <= 'Z';
    ||| (s.len() == 2 && lower(s[0]) && lower(s[1]))
    ||| (s.len() == 5 && lower(s[0]) && lower(s[1]) && s[2] == '-' && upper(s[3]) && upper(s[4]))
}

/// Validate a language code: two lowercase ASCII letters with an optional
/// hyphenated two-uppercase-letter region, as in "en" or "en-GB".
pub fn is_valid_language_code(code: &str) -> (r: bool)
    ensures
        r == valid_language_code_spec(code@),
{
    let v = str_chars(code);
    if v.len() == 2 {
        ('a' <= v[0] && v[0] <= 'z') && ('a' <= v[1] && v[1] <= 'z')
    } else if v.len() == 5 {
        ('a' <= v[0] && v[0] <= 'z') && ('a' <= v[1] && v[1] <= 'z') && v[2] == '-' && ('A' <= v[3]
            && v[3] <= 'Z') && ('A' <= v[4] && v[4] <= 'Z')
    } else {
        false
    }
}

/// Whether `s` contains a '/' separator, the shape of an IANA zone name.
pub open spec fn valid_timezone_spec(s: Seq<char>) -> bool {
    exists|i: int| 0 <= i < s.len() && s[i] == '/'
}

/// Superficially validate an IANA timezone identifier: it must contain a '/'
/// separator, as in "Europe/London". Whether the zone is actually known is
/// decided at resolution time.
pub fn is_valid_timezone(tz: &str) -> (r: bool)
    ensures
        r == valid_timezone_spec(tz@),
{
    let v = str_chars(tz);
    let mut i: usize = 0;
    while i < v.len()
        invariant
            i <= v@.len(),
            v@ == tz@,
            forall|j: int| 0 <= j < i ==> #[trigger] v@[j] != '/',
        decreases v@.len() - i,
    {
        if v[i] == '/' {
            return true;
        }
        i = i + 1;
    }
    false
}

} // verus!
