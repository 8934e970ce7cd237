//! Template-variable substitution: sanitization of user-supplied values,
//! non-recursive single-pass replacement of each recognized variable, and the
//! fixed substitution order that prevents a replacement value from being
//! expanded a second time.

use crate::datetime::{get_current_date, get_current_time, tz_resolves};
use crate::error::GoodbyeError;
use crate::options::{spec_get, CoreGoodbyeOptions};
use crate::text::{append_chars, lemma_filter_push, str_chars, string_from_chars};
use vstd::prelude::*;
use vstd::string::StringExecFns;

verus! {

/// Whether `c` is a Unicode control character (categories C0 and C1).
pub open spec fn is_control_spec(c: char) -> bool {
    let u = c as u32;
    u <= 0x1F || (0x7F <= u && u <= 0x9F)
}

/// Whether `c` has the Unicode `White_Space` property.
pub open spec fn is_whitespace_spec(c: char) -> bool {
    let u = c as u32;
    ||| (0x09 <= u && u <= 0x0D)
    ||| u == 0x20
    ||| u == 0x85
    ||| u == 0xA0
    ||| u == 0x1680
    ||| (0x2000 <= u && u <= 0x200A)
    ||| u == 0x2028
    ||| u == 0x2029
    ||| u == 0x202F
    ||| u == 0x205F
    ||| u == 0x3000
}

/// Sanitization keeps a character unless it is a control character that is
/// not whitespace; newlines and tabs survive, NUL and other control bytes do
/// not.
pub open spec fn keeps_char(c: char) -> bool {
    !is_control_spec(c) || is_whitespace_spec(c)
}

/// A sanitized value: the kept characters, truncated to at most `max`
/// characters.
pub open spec fn sanitize_spec(s: Seq<char>, max: nat) -> Seq<char> {
    let kept = s.filter(|c: char| keeps_char(c));
    if kept.len() <= max {
        kept
    } else {
        kept.take(max as int)
    }
}

fn keeps_char_exec(c: char) -> (r: bool)
    ensures
        r == keeps_char(c),
{
    let u = c as u32;
    let control = u <= 0x1F || (0x7F <= u && u <= 0x9F);
    let whitespace = (0x09 <= u && u <= 0x0D) || u == 0x20 || u == 0x85 || u == 0xA0 || u == 0x1680
        || (0x2000 <= u && u <= 0x200A) || u == 0x2028 || u == 0x2029 || u == 0x202F || u == 0x205F
        || u == 0x3000;
    !control || whitespace
}

/// Sanitize a user-supplied template value: drop every control character that
/// is not whitespace, then truncate to at most `max_length` characters.
pub fn sanitize_template_value(value: &str, max_length: usize) -> (r: String)
    ensures
        r@ == sanitize_spec(value@, max_length as nat),
{
    let v = str_chars(value);
    let mut out: Vec<char> = Vec::new();
    let mut i: usize = 0;
    while i < v.len()
        invariant
            i <= v@.len(),
            out@ == sanitize_spec(v@.take(i as int), max_length as nat),
            out@.len() <= max_length,
        decreases v@.len() - i,
    {
        let ghost prefix = v@.take(i as int);
        let ghost c = v@[i as int];
        let ghost kept = prefix.filter(|c: char| keeps_char(c));
        proof {
            assert(v@.take(i + 1) =~= prefix + seq![c]);
            lemma_filter_push(prefix, |c: char| keeps_char(c), c);
            if keeps_char(c) && kept.len() > max_length {
                assert(kept.push(c).take(max_length as int) =~= kept.take(max_length as int));
            }
            if keeps_char(c) && kept.len() == max_length {
                assert(kept.push(c).take(max_length as int) =~= kept);
            }
        }
        if keeps_char_exec(v[i]) && out.len() < max_length {
            out.push(v[i]);
        }
        i = i + 1;
    }
    proof {
        assert(v@.take(v@.len() as int) =~= v@);
    }
    string_from_chars(&out)
}

/// Whether `pat` occurs in `s` starting at position `i`.
pub open spec fn pattern_at(s: Seq<char>, pat: Seq<char>, i: int) -> bool {
    0 <= i && i + pat.len() <= s.len() && s.subrange(i, i + pat.len() as int) == pat
}

/// Whether `pat` occurs anywhere in `s`.
pub open spec fn contains_pattern(s: Seq<char>, pat: Seq<char>) -> bool {
    exists|i: int| pattern_at(s, pat, i)
}

/// The result of replacing every occurrence of `pat` in `s` by `rep`, in one
/// left-to-right, non-overlapping, non-recursive pass: once a match is
/// replaced, the scan resumes after it and never re-examines the replacement
/// text.
pub open spec fn replace_spec(s: Seq<char>, pat: Seq<char>, rep: Seq<char>) -> Seq<char>
    decreases s.len(),
{
    if pat.len() == 0 || s.len() == 0 {
        s
    } else if pat.len() <= s.len() && s.take(pat.len() as int) == pat {
        rep + replace_spec(s.skip(pat.len() as int), pat, rep)
    } else {
        s.take(1) + replace_spec(s.skip(1), pat, rep)
    }
}

fn matches_at(text: &Vec<char>, pat: &Vec<char>, i: usize) -> (b: bool)
    requires
        i <= text@.len(),
    ensures
        b == pattern_at(text@, pat@, i as int),
{
    if pat.len() > text.len() - i {
        return false;
    }
    let mut j: usize = 0;
    proof {
        assert(text.len() == text@.len());
    }
    while j < pat.len()
        invariant
            j <= pat@.len(),
            i + pat@.len() <= text@.len(),
            text@.len() <= usize::MAX,
            forall|k: int| 0 <= k < j ==> text@[i + k] == #[trigger] pat@[k],
        decreases pat@.len() - j,
    {
        if text[i + j] != pat[j] {
            proof {
                assert(text@.subrange(i as int, i + pat@.len())[j as int] == text@[i + j]);
            }
            return false;
        }
        j = j + 1;
    }
    proof {
        assert(text@.subrange(i as int, i + pat@.len()) =~= pat@);
    }
    true
}

/// Replace every occurrence of `pat` in `text` by `rep`, scanning left to
/// right without re-examining replacement text.
fn replace_all(text: &Vec<char>, pat: &Vec<char>, rep: &Vec<char>) -> (out: Vec<char>)
    requires
        pat@.len() > 0,
    ensures
        out@ == replace_spec(text@, pat@, rep@),
{
    let mut out: Vec<char> = Vec::new();
    let mut i: usize = 0;
    proof {
        assert(text@.skip(0) =~= text@);
        assert(out@ + replace_spec(text@, pat@, rep@) =~= replace_spec(text@, pat@, rep@));
    }
    while i < text.len()
        invariant
            i <= text@.len(),
            pat@.len() > 0,
            replace_spec(text@, pat@, rep@) == out@ + replace_spec(
                text@.skip(i as int),
                pat@,
                rep@,
            ),
        decreases text@.len() - i,
    {
        let ghost rest = text@.skip(i as int);
        let ghost out0 = out@;
        if matches_at(text, pat, i) {
            proof {
                assert(rest.take(pat@.len() as int) =~= text@.subrange(i as int, i + pat@.len()));
                assert(rest.skip(pat@.len() as int) =~= text@.skip(i + pat@.len()));
                assert(replace_spec(rest, pat@, rep@) == rep@ + replace_spec(
                    text@.skip(i + pat@.len()),
                    pat@,
                    rep@,
                ));
            }
            append_chars(&mut out, rep);
            i = i + pat.len();
            proof {
                assert(out@ + replace_spec(text@.skip(i as int), pat@, rep@) =~= out0 + (rep@
                    + replace_spec(text@.skip(i as int), pat@, rep@)));
            }
        } else {
            proof {
                if pat@.len() <= rest.len() {
                    assert(rest.take(pat@.len() as int) =~= text@.subrange(
                        i as int,
                        i + pat@.len(),
                    ));
                }
                assert(rest.take(1) =~= seq![text@[i as int]]);
                assert(rest.skip(1) =~= text@.skip(i + 1));
                assert(replace_spec(rest, pat@, rep@) == seq![text@[i as int]] + replace_spec(
                    text@.skip(i + 1),
                    pat@,
                    rep@,
                ));
            }
            out.push(text[i]);
            i = i + 1;
            proof {
                assert(out@ + replace_spec(text@.skip(i as int), pat@, rep@) =~= out0 + (seq![
                    text@[i - 1],
                ] + replace_spec(text@.skip(i as int), pat@, rep@)));
            }
        }
    }
    proof {
        assert(text@.skip(text@.len() as int).len() == 0);
        assert(out@ + replace_spec(text@.skip(text@.len() as int), pat@, rep@) =~= out@);
    }
    out
}

/// If `pat` occurs nowhere in `s`, replacement leaves `s` unchanged.
proof fn lemma_replace_absent(s: Seq<char>, pat: Seq<char>, rep: Seq<char>)
    requires
        !contains_pattern(s, pat),
    ensures
        replace_spec(s, pat, rep) == s,
    decreases s.len(),
{
    if pat.len() == 0 || s.len() == 0 {
    } else {
        if pat.len() <= s.len() && s.take(pat.len() as int) == pat {
            assert(s.subrange(0, pat.len() as int) =~= s.take(pat.len() as int));
            assert(pattern_at(s, pat, 0));
            assert(false);
        }
        assert forall|i: int| !pattern_at(s.skip(1), pat, i) by {
            if pattern_at(s.skip(1), pat, i) {
                assert(s.subrange(i + 1, i + 1 + pat.len() as int) =~= s.skip(1).subrange(
                    i,
                    i + pat.len() as int,
                ));
                assert(pattern_at(s, pat, i + 1));
            }
        }
        lemma_replace_absent(s.skip(1), pat, rep);
        assert(s.take(1) + s.skip(1) =~= s);
    }
}

/// The full substitution: `{date}` and `{time}` first, then `{location}`,
/// then `{name}` last, each in one non-recursive pass.
pub open spec fn substituted_spec(
    t: Seq<char>,
    date: Seq<char>,
    time: Seq<char>,
    location: Seq<char>,
    name: Seq<char>,
) -> Seq<char> {
    replace_spec(
        replace_spec(
            replace_spec(replace_spec(t, "{date}"@, date), "{time}"@, time),
            "{location}"@,
            location,
        ),
        "{name}"@,
        name,
    )
}

/// The value substituted for `{name}`: the sanitized argument capped at 50
/// characters, or the default.
pub open spec fn resolved_name(args: Seq<(Seq<char>, Seq<char>)>) -> Seq<char> {
    match spec_get(args, "name"@) {
        Some(v) => sanitize_spec(v, 50),
        None => "Good Soul"@,
    }
}

/// The value substituted for `{location}`: the sanitized argument capped at
/// 100 characters, or the default.
pub open spec fn resolved_location(args: Seq<(Seq<char>, Seq<char>)>) -> Seq<char> {
    match spec_get(args, "location"@) {
        Some(v) => sanitize_spec(v, 100),
        None => "The World"@,
    }
}

/// On templates in which none of the four recognized variables occurs,
/// substitution is the identity, whatever values are substituted.
pub proof fn lemma_substitution_identity(
    t: Seq<char>,
    date: Seq<char>,
    time: Seq<char>,
    location: Seq<char>,
    name: Seq<char>,
)
    requires
        !contains_pattern(t, "{date}"@),
        !contains_pattern(t, "{time}"@),
        !contains_pattern(t, "{location}"@),
        !contains_pattern(t, "{name}"@),
    ensures
        substituted_spec(t, date, time, location, name) == t,
{
    lemma_replace_absent(t, "{date}"@, date);
    lemma_replace_absent(t, "{time}"@, time);
    lemma_replace_absent(t, "{location}"@, location);
    lemma_replace_absent(t, "{name}"@, name);
}

/// A sanitized value never holds a control character that is not whitespace:
/// NUL and its kin are absent from every substituted output built from it.
pub proof fn lemma_sanitize_no_control(s: Seq<char>, max: nat)
    ensures
        forall|i: int| 0 <= i < sanitize_spec(s, max).len() ==> keeps_char(
            #[trigger] sanitize_spec(s, max)[i],
        ),
{
    let pred = |c: char| keeps_char(c);
    let kept = s.filter(pred);
    assert forall|i: int| 0 <= i < sanitize_spec(s, max).len() implies keeps_char(
        #[trigger] sanitize_spec(s, max)[i],
    ) by {
        s.lemma_filter_pred(pred, i);
        assert(sanitize_spec(s, max)[i] == kept[i]);
    }
}

/// A sanitized value never exceeds its cap, and is a prefix of the kept
/// characters of the raw value: an over-long value contributes exactly its
/// first `max` kept characters.
pub proof fn lemma_sanitize_truncates(s: Seq<char>, max: nat)
    ensures
        sanitize_spec(s, max).len() <= max,
        sanitize_spec(s, max).is_prefix_of(s.filter(|c: char| keeps_char(c))),
{
    let kept = s.filter(|c: char| keeps_char(c));
    if kept.len() > max {
        assert(kept.take(max as int).is_prefix_of(kept));
    }
}

/// Replace the recognized template variables in `template`, drawing values
/// from `options`: a missing `name` or `location` falls back to its default,
/// a missing `date` or `time` is derived from the clock in the configured
/// timezone, and every user-supplied value is sanitized and capped before it
/// is substituted.
pub fn replace_template_variables(template: &str, options: &CoreGoodbyeOptions) -> (r: Result<
    String,
    GoodbyeError,
>)
    ensures
        ({
            let args = options.template_args@;
            let needs_clock = spec_get(args, "date"@) is None || spec_get(args, "time"@) is None;
            &&& (r is Err <==> needs_clock && !tz_resolves(options.timezone@))
            &&& (r matches Err(e) ==> e matches GoodbyeError::InvalidTimezoneError(s) && s@
                == options.timezone@)
            &&& (r matches Ok(out) ==> exists|ds: Seq<char>, ts: Seq<char>|
                {
                    &&& (spec_get(args, "date"@) matches Some(v) ==> ds == sanitize_spec(v, 20))
                    &&& (spec_get(args, "time"@) matches Some(v) ==> ts == sanitize_spec(v, 10))
                    &&& (spec_get(args, "time"@) is None ==> ts.len() == 5)
                    &&& out@ == #[trigger] substituted_spec(
                        template@,
                        ds,
                        ts,
                        resolved_location(args),
                        resolved_name(args),
                    )
                })
        }),
{
    let name_s: String = match options.template_args.get("name") {
        Some(v) => sanitize_template_value(v.as_str(), 50),
        None => String::from_str("Good Soul"),
    };
    let location_s: String = match options.template_args.get("location") {
        Some(v) => sanitize_template_value(v.as_str(), 100),
        None => String::from_str("The World"),
    };
    let date_s: String = match options.template_args.get("date") {
        Some(v) => sanitize_template_value(v.as_str(), 20),
        None => match get_current_date(options.timezone.as_str()) {
            Ok(d) => d,
            Err(e) => {
                return Err(e);
            },
        },
    };
    let time_s: String = match options.template_args.get("time") {
        Some(v) => sanitize_template_value(v.as_str(), 10),
        None => match get_current_time(options.timezone.as_str()) {
            Ok(t) => t,
            Err(e) => {
                return Err(e);
            },
        },
    };
    proof {
        reveal_strlit("{date}");
        reveal_strlit("{time}");
        reveal_strlit("{location}");
        reveal_strlit("{name}");
    }
    let tv = str_chars(template);
    let date_pat = str_chars("{date}");
    let time_pat = str_chars("{time}");
    let location_pat = str_chars("{location}");
    let name_pat = str_chars("{name}");
    let date_v = str_chars(date_s.as_str());
    let time_v = str_chars(time_s.as_str());
    let location_v = str_chars(location_s.as_str());
    let name_v = str_chars(name_s.as_str());
    let step1 = replace_all(&tv, &date_pat, &date_v);
    let step2 = replace_all(&step1, &time_pat, &time_v);
    let step3 = replace_all(&step2, &location_pat, &location_v);
    let step4 = replace_all(&step3, &name_pat, &name_v);
    let out = string_from_chars(&step4);
    proof {
        let args = options.template_args@;
        assert(out@ == substituted_spec(
            template@,
            date_s@,
            time_s@,
            resolved_location(args),
            resolved_name(args),
        ));
    }
    Ok(out)
}

} // verus!
