//! The parameter mini-language: `"key1=value1;key2=value2"`, tolerant of
//! malformed tokens, with `%%:`-prefixed percent-encoded values and
//! default-valued typed accessors.

use vstd::prelude::*;
use vstd::string::StrSliceExecFns;
use crate::errors::ConfigError;
use crate::text::{
    is_space_char, lemma_find_from_at, lemma_find_from_none, lemma_trim_back_at,
    lemma_trim_front_at,
    all_digits, dec_val, find_char, find_from, lower_seq, parse_u32, str_eq,
    str_eq_ignore_case, trim, trim_chars, u32_digits,
};

verus! {

/// What `urlencoding::decode` returns: the percent-decoded form of `s`, or
/// nothing when the decoded bytes are not valid UTF-8.
pub uninterp spec fn pct_decoded(s: Seq<char>) -> Option<Seq<char>>;

/// Relies on `urlencoding::decode`: percent-decoding, a function of the input
/// characters alone; it fails exactly when the decoded bytes are not UTF-8.
#[verifier::external_body]
fn url_decode(input: &str) -> (r: Option<String>)
    ensures
        r is Some <==> pct_decoded(input@) is Some,
        r matches Some(v) ==> pct_decoded(input@) == Some(v@),
{
    match urlencoding::decode(input) {
        Result::Ok(cow) => Option::Some(cow.into_owned()),
        Result::Err(_) => Option::None,
    }
}

/// What one `;`-separated token contributes to the parse.
pub enum TokenStep {
    /// Whitespace-only token, or one without `=`: silently dropped.
    Skip,
    /// A `key = value` pair to store.
    Put(Seq<char>, Seq<char>),
    /// A `%%:`-escaped value that does not decode: the parse fails.
    Bad,
}

/// The contribution of the token `t`.
pub open spec fn token_step(t: Seq<char>) -> TokenStep {
    if trim_chars(t).len() == 0 {
        TokenStep::Skip
    } else {
        match find_from(t, 0, '=') {
            Option::None => TokenStep::Skip,
            Option::Some(p) => {
                let k = trim_chars(t.subrange(0, p));
                let raw = trim_chars(t.subrange(p + 1, t.len() as int));
                if raw.len() >= 3 && raw.subrange(0, 3) == seq!['%', '%', ':'] {
                    match pct_decoded(raw.skip(3)) {
                        Option::None => TokenStep::Bad,
                        Option::Some(v) => TokenStep::Put(k, v),
                    }
                } else {
                    TokenStep::Put(k, raw)
                }
            },
        }
    }
}

/// Fold one token's contribution into the accumulated map.
pub open spec fn apply_step(st: TokenStep, acc: Map<Seq<char>, Seq<char>>) -> Option<
    Map<Seq<char>, Seq<char>>,
> {
    match st {
        TokenStep::Skip => Option::Some(acc),
        TokenStep::Put(k, v) => Option::Some(acc.insert(k, v)),
        TokenStep::Bad => Option::None,
    }
}

pub proof fn lemma_find_from_range(s: Seq<char>, from: int, c: char)
    requires
        0 <= from,
    ensures
        find_from(s, from, c) matches Some(j) ==> from <= j < s.len() && s[j] == c,
    decreases s.len() - from,
{
    if from < s.len() && s[from] != c {
        lemma_find_from_range(s, from + 1, c);
    }
}

proof fn lemma_find_from_shift(s: Seq<char>, p: int, i: int, c: char)
    requires
        0 <= p <= i,
        p <= s.len(),
    ensures
        find_from(s.skip(p), i - p, c) == match find_from(s, i, c) {
            Option::Some(j) => Option::Some(j - p),
            Option::None => Option::None::<int>,
        },
    decreases s.len() - i,
{
    if i >= s.len() {
        assert(s.skip(p).len() == s.len() - p);
        assert(find_from(s.skip(p), i - p, c) is None);
    } else {
        assert(s.skip(p)[i - p] == s[i]);
        if s[i] != c {
            lemma_find_from_shift(s, p, i + 1, c);
        }
    }
}

#[via_fn]
proof fn parse_from_decreases(s: Seq<char>, acc: Map<Seq<char>, Seq<char>>) {
    lemma_find_from_range(s, 0, ';');
}

/// Parse the remaining input `s` on top of the pairs accumulated so far.
/// Later tokens win on duplicate keys; a bad escape fails the whole parse.
pub open spec fn parse_from(s: Seq<char>, acc: Map<Seq<char>, Seq<char>>) -> Option<
    Map<Seq<char>, Seq<char>>,
>
    decreases s.len(),
    via parse_from_decreases
{
    match find_from(s, 0, ';') {
        Option::None => apply_step(token_step(s), acc),
        Option::Some(j) => match apply_step(token_step(s.subrange(0, j)), acc) {
            Option::None => Option::None,
            Option::Some(acc2) => parse_from(s.skip(j + 1), acc2),
        },
    }
}

/// The parse of a whole parameter string.
pub open spec fn parse_spec(s: Seq<char>) -> Option<Map<Seq<char>, Seq<char>>> {
    parse_from(s, Map::empty())
}

/// The key/value map denoted by a list of pairs, later pairs winning.
pub open spec fn map_of(s: Seq<(String, String)>) -> Map<Seq<char>, Seq<char>>
    decreases s.len(),
{
    if s.len() == 0 {
        Map::empty()
    } else {
        map_of(s.drop_last()).insert(s.last().0@, s.last().1@)
    }
}

proof fn lemma_map_of_found(s: Seq<(String, String)>, i: int, k: Seq<char>)
    requires
        0 <= i < s.len(),
        s[i].0@ == k,
        forall|j: int| i < j < s.len() ==> s[j].0@ != k,
    ensures
        map_of(s).contains_key(k),
        map_of(s)[k] == s[i].1@,
    decreases s.len(),
{
    if i < s.len() - 1 {
        lemma_map_of_found(s.drop_last(), i, k);
    }
}

proof fn lemma_map_of_absent(s: Seq<(String, String)>, k: Seq<char>)
    requires
        forall|i: int| 0 <= i < s.len() ==> s[i].0@ != k,
    ensures
        !map_of(s).contains_key(k),
    decreases s.len(),
{
    if s.len() > 0 {
        lemma_map_of_absent(s.drop_last(), k);
    }
}

/// Malformed-token tolerance: a token without `=` — a key-only token, a
/// whitespace-only token, or the empty tokens of a stray `;;;` — is silently
/// ignored, and the rest of the string parses as if the token were absent.
pub proof fn lemma_token_without_eq_ignored(t: Seq<char>, rest: Seq<char>)
    requires
        forall|i: int| 0 <= i < t.len() ==> t[i] != ';',
        forall|i: int| 0 <= i < t.len() ==> t[i] != '=',
    ensures
        parse_spec(t + seq![';'] + rest) == parse_spec(rest),
{
    let s = t + seq![';'] + rest;
    assert(s[t.len() as int] == ';');
    assert(forall|i: int| 0 <= i < t.len() ==> s[i] == t[i]);
    crate::text::lemma_find_from_at(s, 0, ';', t.len() as int);
    let tok = s.subrange(0, t.len() as int);
    assert(tok =~= t);
    crate::text::lemma_find_from_none(t, 0, '=');
    assert(token_step(t) is Skip);
    assert(s.skip(t.len() + 1 as int) =~= rest);
}

/// The escaping law, on the library's side of percent-decoding: parsing
/// `key=%%:esc` stores under `key` exactly the percent-decoded form of
/// `esc`, whatever `;`, `=` or `%%:` the decoded value itself contains.
pub proof fn lemma_escaped_value(key: Seq<char>, esc: Seq<char>, v: Seq<char>)
    requires
        pct_decoded(esc) == Some(v),
        forall|i: int| 0 <= i < key.len() ==> key[i] != ';' && key[i] != '=',
        key.len() == 0 || (!is_space_char(key[0]) && !is_space_char(key[key.len() - 1])),
        forall|i: int| 0 <= i < esc.len() ==> esc[i] != ';',
        esc.len() == 0 || !is_space_char(esc[esc.len() - 1]),
    ensures
        parse_spec(key + seq!['=', '%', '%', ':'] + esc) == Some(
            Map::<Seq<char>, Seq<char>>::empty().insert(key, v),
        ),
{
    let s = key + seq!['=', '%', '%', ':'] + esc;
    let kn = key.len() as int;
    assert(forall|i: int| 0 <= i < kn ==> s[i] == key[i]);
    assert(s[kn] == '=' && s[kn + 1] == '%' && s[kn + 2] == '%' && s[kn + 3] == ':');
    assert(forall|i: int| kn + 4 <= i < s.len() ==> s[i] == esc[i - kn - 4]);
    // no separator anywhere: the whole string is one token
    assert(forall|i: int| 0 <= i < s.len() ==> s[i] != ';');
    lemma_find_from_none(s, 0, ';');
    // the string is trim-stable: its first and last characters are not spaces
    assert(!is_space_char(s[0]));
    assert(!is_space_char(s[s.len() - 1]));
    lemma_trim_front_at(s, 0);
    lemma_trim_back_at(s, s.len() as int);
    assert(s.subrange(0, s.len() as int) =~= s);
    assert(trim_chars(s) == s);
    // the first `=` splits right after the key
    lemma_find_from_at(s, 0, '=', kn);
    let kpart = s.subrange(0, kn);
    assert(kpart =~= key);
    if key.len() > 0 {
        lemma_trim_front_at(key, 0);
        lemma_trim_back_at(key, kn);
        assert(key.subrange(0, kn) =~= key);
    }
    assert(trim_chars(key) == key);
    // the value part keeps its escape prefix and payload
    let raw = s.subrange(kn + 1, s.len() as int);
    assert(raw =~= seq!['%', '%', ':'] + esc);
    assert(!is_space_char(raw[0]));
    assert(!is_space_char(raw[raw.len() - 1]));
    lemma_trim_front_at(raw, 0);
    lemma_trim_back_at(raw, raw.len() as int);
    assert(raw.subrange(0, raw.len() as int) =~= raw);
    assert(trim_chars(raw) == raw);
    assert(raw.subrange(0, 3) =~= seq!['%', '%', ':']);
    assert(raw.skip(3) =~= esc);
    assert(token_step(s) == TokenStep::Put(key, v));
}

/// A parsed, immutable parameter set: a map from parameter name to value.
pub struct ParamSet {
    entries: Vec<(String, String)>,
}

impl View for ParamSet {
    type V = Map<Seq<char>, Seq<char>>;

    closed spec fn view(&self) -> Map<Seq<char>, Seq<char>> {
        map_of(self.entries@)
    }
}

/// The stored value of `k`, or the default `d`.
pub open spec fn get_string_spec(
    m: Map<Seq<char>, Seq<char>>,
    k: Seq<char>,
    d: Seq<char>,
) -> Seq<char> {
    if m.contains_key(k) {
        m[k]
    } else {
        d
    }
}

/// The boolean reading of `k`: absent or empty falls back to `d`; otherwise
/// only a case-insensitive `"true"` is true.
pub open spec fn get_bool_spec(m: Map<Seq<char>, Seq<char>>, k: Seq<char>, d: bool) -> bool {
    let v = get_string_spec(m, k, seq![]);
    if v.len() == 0 {
        d
    } else {
        lower_seq(v) == seq!['t', 'r', 'u', 'e']
    }
}

/// The numeric reading of `k`: a value following the standard unsigned
/// conversion grammar — one optional leading `+`, then decimal digits — that
/// fits in a `u32`; anything else falls back to `d`.
pub open spec fn get_u32_spec(m: Map<Seq<char>, Seq<char>>, k: Seq<char>, d: u32) -> u32 {
    let dg = u32_digits(get_string_spec(m, k, seq![]));
    if dg.len() > 0 && all_digits(dg) && dec_val(dg) <= u32::MAX {
        dec_val(dg) as u32
    } else {
        d
    }
}

impl ParamSet {
    /// Parse a parameter string: tokens separated by `;`, each split at its
    /// first `=`, key and value trimmed of surrounding whitespace, values
    /// with a `%%:` prefix percent-decoded. Whitespace-only tokens and tokens
    /// without `=` are dropped; later tokens win on duplicate keys; a
    /// `%%:`-escaped value that does not decode fails the whole parse.
    pub fn parse(input: &str) -> (r: Result<ParamSet, ConfigError>)
        ensures
            r is Ok <==> parse_spec(input@) is Some,
            r matches Ok(p) ==> parse_spec(input@) == Some(p@),
            r matches Err(e) ==> e == ConfigError::MalformedValue,
    {
        let n = input.unicode_len();
        let mut entries: Vec<(String, String)> = Vec::new();
        let mut pos: usize = 0;
        proof {
            assert(input@.skip(0) =~= input@);
            assert(map_of(entries@) =~= Map::<Seq<char>, Seq<char>>::empty());
        }
        loop
            invariant
                pos <= n,
                n == input@.len(),
                parse_spec(input@) == parse_from(input@.skip(pos as int), map_of(entries@)),
            decreases n - pos,
        {
            let ghost rem = input@.skip(pos as int);
            let ghost m0 = map_of(entries@);
            let semi = find_char(input, pos, ';');
            proof {
                lemma_find_from_range(input@, pos as int, ';');
                lemma_find_from_shift(input@, pos as int, pos as int, ';');
            }
            let end: usize = match semi {
                Option::Some(j) => j,
                Option::None => n,
            };
            let last: bool = match semi {
                Option::Some(_) => false,
                Option::None => true,
            };
            let token = input.substring_char(pos, end);
            proof {
                assert(token@ =~= rem.subrange(0, end - pos));
                if !last {
                    assert(find_from(rem, 0, ';') == Option::Some(end - pos));
                } else {
                    assert(find_from(rem, 0, ';') is None);
                    assert(token@ =~= rem);
                }
            }
            let tlen = token.unicode_len();
            let tr = trim(token);
            if tr.unicode_len() > 0 {
                let eq = find_char(token, 0, '=');
                proof {
                    lemma_find_from_range(token@, 0, '=');
                }
                match eq {
                    Option::None => {
                        proof {
                            assert(token_step(token@) is Skip);
                        }
                    },
                    Option::Some(p) => {
                        let keypart = token.substring_char(0, p);
                        let key = trim(keypart);
                        let rawpart = token.substring_char(p + 1, tlen);
                        let raw = trim(rawpart);
                        let rlen = raw.unicode_len();
                        let is_esc = rlen >= 3 && raw.get_char(0) == '%' && raw.get_char(1)
                            == '%' && raw.get_char(2) == ':';
                        proof {
                            if raw@.len() >= 3 {
                                if raw@[0] == '%' && raw@[1] == '%' && raw@[2] == ':' {
                                    assert(raw@.subrange(0, 3) =~= seq!['%', '%', ':']);
                                } else {
                                    assert(raw@.subrange(0, 3)[0] == raw@[0]);
                                    assert(raw@.subrange(0, 3)[1] == raw@[1]);
                                    assert(raw@.subrange(0, 3)[2] == raw@[2]);
                                    assert(raw@.subrange(0, 3) != seq!['%', '%', ':']);
                                }
                            }
                        }
                        let ghost old_entries = entries@;
                        if is_esc {
                            let payload = raw.substring_char(3, rlen);
                            proof {
                                assert(payload@ =~= raw@.skip(3));
                            }
                            match url_decode(payload) {
                                Option::None => {
                                    proof {
                                        assert(token_step(token@) is Bad);
                                        assert(parse_from(rem, m0) is None);
                                    }
                                    return Result::Err(ConfigError::MalformedValue);
                                },
                                Option::Some(v) => {
                                    entries.push((key.to_owned(), v));
                                    proof {
                                        assert(entries@.drop_last() =~= old_entries);
                                        assert(token_step(token@) == TokenStep::Put(
                                            key@,
                                            entries@.last().1@,
                                        ));
                                        assert(map_of(entries@) == m0.insert(
                                            key@,
                                            entries@.last().1@,
                                        ));
                                    }
                                },
                            }
                        } else {
                            entries.push((key.to_owned(), raw.to_owned()));
                            proof {
                                assert(entries@.drop_last() =~= old_entries);
                                assert(token_step(token@) == TokenStep::Put(key@, raw@));
                                assert(map_of(entries@) == m0.insert(key@, raw@));
                            }
                        }
                    },
                }
            } else {
                proof {
                    assert(token_step(token@) is Skip);
                }
            }
            proof {
                assert(apply_step(token_step(token@), m0) == Option::Some(map_of(entries@)));
            }
            if last {
                proof {
                    assert(parse_from(rem, m0) == Option::Some(map_of(entries@)));
                }
                return Result::Ok(ParamSet { entries });
            }
            proof {
                assert(parse_from(rem, m0) == parse_from(
                    rem.skip(end - pos + 1),
                    map_of(entries@),
                ));
                assert(rem.skip(end - pos + 1) =~= input@.skip(end + 1));
            }
            pos = end + 1;
        }
    }

    /// Read the parameter `key` as a string, or `default_value` if absent.
    pub fn get_string<'a, 'b>(&'a self, key: &'b str, default_value: &'b str) -> (r: &'b str) where
        'a: 'b,

        ensures
            r@ == get_string_spec(self@, key@, default_value@),
    {
        let mut i: usize = self.entries.len();
        while i > 0
            invariant
                i <= self.entries.len(),
                forall|j: int| i <= j < self.entries@.len() ==> self.entries@[j].0@ != key@,
            decreases i,
        {
            i = i - 1;
            if str_eq(self.entries[i].0.as_str(), key) {
                proof {
                    lemma_map_of_found(self.entries@, i as int, key@);
                }
                return self.entries[i].1.as_str();
            }
        }
        proof {
            lemma_map_of_absent(self.entries@, key@);
        }
        default_value
    }

    /// Read the parameter `key` as a boolean, or `default_value` if absent or
    /// empty. Only a case-insensitive `"true"` reads as true; any other
    /// non-empty value reads as false.
    pub fn get_bool(&self, key: &str, default_value: bool) -> (r: bool)
        ensures
            r == get_bool_spec(self@, key@, default_value),
    {
        let v = self.get_string(key, "");
        proof {
            reveal_strlit("");
            assert(""@ =~= Seq::<char>::empty());
        }
        if v.unicode_len() == 0 {
            default_value
        } else {
            let r = str_eq_ignore_case(v, "true");
            proof {
                reveal_strlit("true");
                assert(lower_seq("true"@) =~= seq!['t', 'r', 'u', 'e']);
            }
            r
        }
    }

    /// Read the parameter `key` as a `u32` under the standard conversion
    /// grammar (one optional leading `+`, then decimal digits), or
    /// `default_value` if absent, empty, or not such a number that fits.
    pub fn get_parse(&self, key: &str, default_value: u32) -> (r: u32)
        ensures
            r == get_u32_spec(self@, key@, default_value),
    {
        let v = self.get_string(key, "");
        proof {
            reveal_strlit("");
            assert(""@ =~= Seq::<char>::empty());
        }
        match parse_u32(v) {
            Option::Some(x) => x,
            Option::None => default_value,
        }
    }
}

} // verus!
