//! Parsing the attribute configuration.
//!
//! The attribute token sequence obeys the grammar `("async")? (identifier)?`
//! with the two parts in either order: at most one bare identifier naming
//! the reporting callback, and the marker word `async` saying that the
//! callback call is to be awaited.  Repeating the `async` marker is a
//! documented no-op; a second bare identifier, or any token that is not an
//! identifier, is a configuration error reported at that token.

use vstd::prelude::*;

verus! {

/// One token of the attribute configuration, as lexed by the host tooling:
/// an identifier carrying its text, or any other token, carried as opaque
/// text.
#[derive(Debug, Clone, PartialEq, Eq)]
pub enum AttrToken {
    Ident(String),
    Other(String),
}

/// The parsed attribute configuration: an optional reporting callback and
/// whether its call is awaited.  Immutable once parsed.
#[derive(Debug, Clone, PartialEq, Eq)]
pub struct Config {
    pub callback: Option<String>,
    pub is_async: bool,
}

/// A configuration error: `index` is the position of the offending
/// attribute token, for the host tooling to report at that token's source
/// location.
#[derive(Debug, Clone, PartialEq, Eq)]
pub struct ConfigError {
    pub index: usize,
}

/// What parsing the attribute tokens from position `i` onward yields, given
/// the callback and marker already seen: the parsed configuration, or the
/// index of the first offending token.
pub open spec fn spec_parse_config(
    toks: Seq<AttrToken>,
    i: int,
    callback: Option<String>,
    is_async: bool,
) -> Result<Config, int>
    decreases toks.len() - i,
{
    if i < 0 || i >= toks.len() {
        Ok(Config { callback, is_async })
    } else {
        match toks[i] {
            AttrToken::Ident(s) => {
                if s@ == "async"@ {
                    spec_parse_config(toks, i + 1, callback, true)
                } else if callback is None {
                    spec_parse_config(toks, i + 1, Some(s), is_async)
                } else {
                    Err(i)
                }
            },
            AttrToken::Other(_) => Err(i),
        }
    }
}

/// Parse the attribute token sequence.  Succeeds exactly on token sequences
/// matching `("async")? (identifier)?` in either order (with repeated
/// `async` markers tolerated); otherwise reports the index of the first
/// token that fits no open slot.
pub fn parse_config(tokens: &Vec<AttrToken>) -> (r: Result<Config, ConfigError>)
    ensures
        match r {
            Ok(c) => spec_parse_config(tokens@, 0, None::<String>, false) == Ok::<Config, int>(c),
            Err(e) => spec_parse_config(tokens@, 0, None::<String>, false) == Err::<Config, int>(
                e.index as int,
            ),
        },
{
    let async_kw: String = "async".to_owned();
    let mut callback: Option<String> = None;
    let mut is_async: bool = false;
    let mut i: usize = 0;
    while i < tokens.len()
        invariant
            0 <= i <= tokens.len(),
            async_kw@ == "async"@,
            spec_parse_config(tokens@, 0, None::<String>, false) == spec_parse_config(
                tokens@,
                i as int,
                callback,
                is_async,
            ),
        decreases tokens.len() - i,
    {
        let ghost cb0 = callback;
        let ghost as0 = is_async;
        let tok = &tokens[i];
        proof {
            assert(*tok == tokens@[i as int]);
        }
        match tok {
            AttrToken::Ident(s) => {
                proof {
                    assert(tokens@[i as int] == AttrToken::Ident(*s));
                }
                if s.eq(&async_kw) {
                    is_async = true;
                    proof {
                        assert(spec_parse_config(tokens@, i as int, cb0, as0)
                            == spec_parse_config(tokens@, i as int + 1, cb0, true));
                    }
                } else if callback.is_none() {
                    callback = Some(s.clone());
                    proof {
                        assert(spec_parse_config(tokens@, i as int, cb0, as0)
                            == spec_parse_config(tokens@, i as int + 1, callback, as0));
                    }
                } else {
                    proof {
                        assert(spec_parse_config(tokens@, i as int, cb0, as0)
                            == Err::<Config, int>(i as int));
                    }
                    return Err(ConfigError { index: i });
                }
            },
            AttrToken::Other(_) => {
                proof {
                    assert(spec_parse_config(tokens@, i as int, cb0, as0)
                        == Err::<Config, int>(i as int));
                }
                return Err(ConfigError { index: i });
            },
        }
        i = i + 1;
    }
    Ok(Config { callback, is_async })
}

/// Whether every token at or after position `i` is an identifier.
pub open spec fn idents_only_from(toks: Seq<AttrToken>, i: int) -> bool
    decreases toks.len() - i,
{
    if i < 0 || i >= toks.len() {
        true
    } else {
        (toks[i] matches AttrToken::Ident(_)) && idents_only_from(toks, i + 1)
    }
}

/// How many plain identifier tokens — identifiers other than the `async`
/// marker — stand at or after position `i`.
pub open spec fn plain_idents_from(toks: Seq<AttrToken>, i: int) -> nat
    decreases toks.len() - i,
{
    if i < 0 || i >= toks.len() {
        0
    } else {
        (match toks[i] {
            AttrToken::Ident(s) => if s@ == "async"@ {
                0nat
            } else {
                1nat
            },
            AttrToken::Other(_) => 0nat,
        }) + plain_idents_from(toks, i + 1)
    }
}

proof fn lemma_config_grammar_from(toks: Seq<AttrToken>, i: int, cb: Option<String>, asy: bool)
    requires
        0 <= i,
    ensures
        (spec_parse_config(toks, i, cb, asy) matches Ok(_)) <==> (idents_only_from(toks, i)
            && plain_idents_from(toks, i) + (if cb is Some {
            1int
        } else {
            0int
        }) <= 1),
    decreases toks.len() - i,
{
    if i >= toks.len() {
    } else {
        match toks[i] {
            AttrToken::Ident(s) => {
                if s@ == "async"@ {
                    lemma_config_grammar_from(toks, i + 1, cb, true);
                } else if cb is None {
                    lemma_config_grammar_from(toks, i + 1, Some(s), asy);
                } else {
                    assert(plain_idents_from(toks, i) >= 1);
                }
            },
            AttrToken::Other(_) => {},
        }
    }
}

/// The configuration grammar, characterized: parsing the attribute tokens
/// succeeds exactly when every token is an identifier and at most one of
/// them is not the `async` marker — `("async")? (identifier)?` in either
/// order, with repeated markers tolerated.
pub proof fn law_config_grammar(toks: Seq<AttrToken>)
    ensures
        (spec_parse_config(toks, 0, None::<String>, false) matches Ok(_)) <==> (idents_only_from(
            toks,
            0,
        ) && plain_idents_from(toks, 0) <= 1),
{
    lemma_config_grammar_from(toks, 0, None::<String>, false);
}

} // verus!
