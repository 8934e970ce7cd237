//! Generation of a goodbye message: load the corpus, pick a random template
//! from the bucket of the requested language (falling back to "en-GB"),
//! substitute the template variables, and optionally strip emojis.

use crate::corpus::{
    corpus_indexed, corpus_wf, fallback_template, is_fallback_corpus, lemma_bucket_inversion,
    load_corpus, spec_bucket, MessageCorpus,
};
use crate::emoji::{strip_emojis, strip_spec};
use crate::error::GoodbyeError;
use crate::options::{spec_get, CoreGoodbyeOptions};
use crate::template::{
    replace_template_variables, resolved_location, resolved_name, sanitize_spec, substituted_spec,
};
use crate::datetime::tz_resolves;
use vstd::prelude::*;
use vstd::string::StringExecFns;

verus! {

/// Relies on rand::random_range: a value drawn uniformly from the range by
/// the thread-local generator; it panics only on an empty range, which the
/// precondition rules out.
#[verifier::external_body]
fn random_below(n: usize) -> (r: usize)
    requires
        n > 0,
    ensures
        r < n,
{
    rand::random_range(0..n)
}

/// The bucket the generator draws from: the one for the requested language,
/// or failing that the "en-GB" bucket.
pub open spec fn resolved_bucket(c: &MessageCorpus, lang: Seq<char>) -> Option<Seq<usize>> {
    match spec_bucket(c.language_index@, lang) {
        Some(b) => Some(b),
        None => spec_bucket(c.language_index@, "en-GB"@),
    }
}

/// What a successful generation returns: some template of the drawn bucket,
/// substituted with the resolved values, stripped of emojis when emojis are
/// not wanted.
pub open spec fn generation_ok(
    c: &MessageCorpus,
    options: &CoreGoodbyeOptions,
    idxs: Seq<usize>,
    out: Seq<char>,
) -> bool {
    let args = options.template_args@;
    exists|k: int, ds: Seq<char>, ts: Seq<char>|
        {
            &&& 0 <= k < idxs.len()
            &&& (idxs[k] as int) < c.messages@.len()
            &&& (spec_get(args, "date"@) matches Some(v) ==> ds == sanitize_spec(v, 20))
            &&& (spec_get(args, "time"@) matches Some(v) ==> ts == sanitize_spec(v, 10))
            &&& out == ({
                let substituted = #[trigger] substituted_spec(
                    c.messages@[idxs[k] as int].template@,
                    ds,
                    ts,
                    resolved_location(args),
                    resolved_name(args),
                );
                if options.use_emojis {
                    substituted
                } else {
                    strip_spec(substituted)
                }
            })
        }
}

/// Generate a goodbye message from the given corpus: resolve the language
/// bucket (falling back to "en-GB"), draw one template uniformly at random,
/// substitute its variables, and strip emojis if they are not wanted.
pub fn generate_from_corpus(corpus: &MessageCorpus, options: &CoreGoodbyeOptions) -> (r: Result<
    String,
    GoodbyeError,
>)
    requires
        corpus_wf(corpus),
    ensures
        ({
            let b = resolved_bucket(corpus, options.language_code@);
            let args = options.template_args@;
            let needs_clock = spec_get(args, "date"@) is None || spec_get(args, "time"@) is None;
            &&& (b is None ==> (r matches Err(e)
                && e matches GoodbyeError::InvalidLanguageCodeError(l) && l@
                == options.language_code@))
            &&& (b matches Some(idxs) ==> {
                &&& (idxs.len() == 0 ==> (r matches Err(e) && e matches
                GoodbyeError::CorpusLoadError(_)))
                &&& (idxs.len() > 0 ==> {
                    &&& (r is Err <==> needs_clock && !tz_resolves(options.timezone@))
                    &&& (r matches Err(e) ==> e matches GoodbyeError::InvalidTimezoneError(s) && s@
                        == options.timezone@)
                    &&& (r matches Ok(out) ==> generation_ok(corpus, options, idxs, out@))
                })
            })
        }),
{
    let bucket: &Vec<usize> = match corpus.bucket_for(options.language_code.as_str()) {
        Some(b) => b,
        None => {
            match corpus.bucket_for("en-GB") {
                Some(b) => b,
                None => {
                    return Err(GoodbyeError::InvalidLanguageCodeError(
                        options.language_code.clone(),
                    ));
                },
            }
        },
    };
    if bucket.len() == 0 {
        return Err(
            GoodbyeError::CorpusLoadError(String::from_str("No messages found in corpus for language")),
        );
    }
    let pos = random_below(bucket.len());
    let idx = bucket[pos];
    proof {
        let index = corpus.language_index@;
        if spec_bucket(index, options.language_code@) is Some {
            lemma_bucket_inversion(index, options.language_code@);
        } else {
            lemma_bucket_inversion(index, "en-GB"@);
        }
        assert((bucket@[pos as int] as int) < corpus.messages@.len());
    }
    let message_template = &corpus.messages[idx];
    let result = match replace_template_variables(message_template.template.as_str(), options) {
        Ok(s) => s,
        Err(e) => {
            return Err(e);
        },
    };
    if !options.use_emojis {
        let stripped = strip_emojis(result.as_str());
        proof {
            lemma_generation_witness(corpus, options, bucket@, pos as int, result@, stripped@);
        }
        Ok(stripped)
    } else {
        proof {
            lemma_generation_witness(corpus, options, bucket@, pos as int, result@, result@);
        }
        Ok(result)
    }
}

/// Package the substitution result at the drawn position as a witness for
/// [`generation_ok`].
proof fn lemma_generation_witness(
    c: &MessageCorpus,
    options: &CoreGoodbyeOptions,
    idxs: Seq<usize>,
    k: int,
    substituted_out: Seq<char>,
    out: Seq<char>,
)
    requires
        0 <= k < idxs.len(),
        (idxs[k] as int) < c.messages@.len(),
        exists|ds: Seq<char>, ts: Seq<char>|
            {
                &&& (spec_get(options.template_args@, "date"@) matches Some(v) ==> ds
                    == sanitize_spec(v, 20))
                &&& (spec_get(options.template_args@, "time"@) matches Some(v) ==> ts
                    == sanitize_spec(v, 10))
                &&& substituted_out == #[trigger] substituted_spec(
                    c.messages@[idxs[k] as int].template@,
                    ds,
                    ts,
                    resolved_location(options.template_args@),
                    resolved_name(options.template_args@),
                )
            },
        out == if options.use_emojis {
            substituted_out
        } else {
            strip_spec(substituted_out)
        },
    ensures
        generation_ok(c, options, idxs, out),
{
    let args = options.template_args@;
    let (ds, ts) = choose|ds: Seq<char>, ts: Seq<char>|
        {
            &&& (spec_get(args, "date"@) matches Some(v) ==> ds == sanitize_spec(v, 20))
            &&& (spec_get(args, "time"@) matches Some(v) ==> ts == sanitize_spec(v, 10))
            &&& substituted_out == #[trigger] substituted_spec(
                c.messages@[idxs[k] as int].template@,
                ds,
                ts,
                resolved_location(args),
                resolved_name(args),
            )
        };
    assert({
        &&& 0 <= k < idxs.len()
        &&& (idxs[k] as int) < c.messages@.len()
        &&& (spec_get(args, "date"@) matches Some(v) ==> ds == sanitize_spec(v, 20))
        &&& (spec_get(args, "time"@) matches Some(v) ==> ts == sanitize_spec(v, 10))
        &&& out == ({
            let substituted = #[trigger] substituted_spec(
                c.messages@[idxs[k] as int].template@,
                ds,
                ts,
                resolved_location(args),
                resolved_name(args),
            );
            if options.use_emojis {
                substituted
            } else {
                strip_spec(substituted)
            }
        })
    });
}

/// Generate a random goodbye message: load the cached-construction corpus,
/// then generate from it. With the embedded corpus source empty, the corpus
/// is the single-message fallback, so a successful call returns that message
/// with its variables substituted (and stripped of emojis when
/// `use_emojis` is false).
pub fn generate_goodbye(options: &CoreGoodbyeOptions) -> (r: Result<String, GoodbyeError>)
    ensures
        ({
            let args = options.template_args@;
            let needs_clock = spec_get(args, "date"@) is None || spec_get(args, "time"@) is None;
            &&& (r is Err <==> needs_clock && !tz_resolves(options.timezone@))
            &&& (r matches Err(e) ==> e matches GoodbyeError::InvalidTimezoneError(s) && s@
                == options.timezone@)
            &&& (r matches Ok(out) ==> exists|ds: Seq<char>, ts: Seq<char>|
                {
                    &&& (spec_get(args, "date"@) matches Some(v) ==> ds == sanitize_spec(v, 20))
                    &&& (spec_get(args, "time"@) matches Some(v) ==> ts == sanitize_spec(v, 10))
                    &&& out@ == ({
                        let substituted = #[trigger] substituted_spec(
                            fallback_template(),
                            ds,
                            ts,
                            resolved_location(args),
                            resolved_name(args),
                        );
                        if options.use_emojis {
                            substituted
                        } else {
                            strip_spec(substituted)
                        }
                    })
                })
        }),
{
    let corpus = match load_corpus() {
        Ok(c) => c,
        Err(e) => {
            return Err(e);
        },
    };
    proof {
        let index = corpus.language_index@;
        if index[0].language_code@ != options.language_code@ {
            assert(spec_bucket(index, options.language_code@) == spec_bucket(
                index.drop_first(),
                options.language_code@,
            ));
            assert(index.drop_first().len() == 0);
        }
        assert(spec_bucket(index, "en-GB"@) == Some(index[0].indices@));
        assert(resolved_bucket(&corpus, options.language_code@) == Some(seq![0usize]));
    }
    let r = generate_from_corpus(&corpus, options);
    proof {
        let idxs = seq![0usize];
        if r is Ok {
            let out = r->Ok_0;
            assert(generation_ok(&corpus, options, idxs, out@));
            let (k, ds, ts) = choose|k: int, ds: Seq<char>, ts: Seq<char>|
                {
                    &&& 0 <= k < idxs.len()
                    &&& (idxs[k] as int) < corpus.messages@.len()
                    &&& (spec_get(options.template_args@, "date"@) matches Some(v) ==> ds
                        == sanitize_spec(v, 20))
                    &&& (spec_get(options.template_args@, "time"@) matches Some(v) ==> ts
                        == sanitize_spec(v, 10))
                    &&& out@ == ({
                        let substituted = #[trigger] substituted_spec(
                            corpus.messages@[idxs[k] as int].template@,
                            ds,
                            ts,
                            resolved_location(options.template_args@),
                            resolved_name(options.template_args@),
                        );
                        if options.use_emojis {
                            substituted
                        } else {
                            strip_spec(substituted)
                        }
                    })
                };
            assert(idxs[k] == 0usize);
            assert(corpus.messages@[0].template@ == fallback_template());
        }
    }
    r
}

} // verus!
