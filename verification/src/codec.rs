//! The durable form of the cache: a JSON object
//! `{"spotify_access_token": null|string, "track_durations": {id: ms, ...}}`.
//! The encoder and the parser are both verified against the same grammar,
//! and decoding an encoded cache provably yields the cache back. The parser
//! accepts the two fields in either order, whitespace between tokens, the
//! simple escapes `\" \\ \/ \b \f \n \r \t` and `\uXXXX` for characters of
//! the basic plane; the encoder writes the compact canonical form and
//! escapes only `"` and `\`, so every string round-trips.

use vstd::prelude::*;
use crate::cache::CacheModel;
use crate::numbers::dec_val;
use crate::numbers::dec_str_of;
use crate::numbers::digit_val;
use crate::numbers::is_digit;

verus! {

// ---------------------------------------------------------------------------
// The canonical encoding.
// ---------------------------------------------------------------------------

pub open spec fn esc_char(c: char) -> Seq<char> {
    if c == '"' {
        seq!['\\', '"']
    } else if c == '\\' {
        seq!['\\', '\\']
    } else {
        seq![c]
    }
}

pub open spec fn esc_str(s: Seq<char>) -> Seq<char>
    decreases s.len(),
{
    if s.len() == 0 {
        Seq::empty()
    } else {
        esc_char(s[0]) + esc_str(s.drop_first())
    }
}

/// A quoted, escaped string.
pub open spec fn enc_string(s: Seq<char>) -> Seq<char> {
    seq!['"'] + esc_str(s) + seq!['"']
}

pub open spec fn enc_cred(c: Option<Seq<char>>) -> Seq<char> {
    match c {
        None => "null"@,
        Some(s) => enc_string(s),
    }
}

pub open spec fn enc_pair(p: (Seq<char>, u64)) -> Seq<char> {
    enc_string(p.0) + seq![':'] + dec_str_of(p.1 as int)
}

/// Second and later entries, each preceded by a comma.
pub open spec fn enc_rest(entries: Seq<(Seq<char>, u64)>) -> Seq<char>
    decreases entries.len(),
{
    if entries.len() == 0 {
        Seq::empty()
    } else {
        seq![','] + enc_pair(entries[0]) + enc_rest(entries.drop_first())
    }
}

pub open spec fn enc_pairs(entries: Seq<(Seq<char>, u64)>) -> Seq<char> {
    if entries.len() == 0 {
        Seq::empty()
    } else {
        enc_pair(entries[0]) + enc_rest(entries.drop_first())
    }
}

/// The canonical durable form of a cache value: compact, credential first.
pub open spec fn enc_cache(m: CacheModel) -> Seq<char> {
    seq!['{'] + "\"spotify_access_token\""@ + seq![':'] + enc_cred(m.credential) + seq![',']
        + "\"track_durations\""@ + seq![':'] + seq!['{'] + enc_pairs(m.durations) + seq!['}']
        + seq!['}']
}

// ---------------------------------------------------------------------------
// The grammar, as a parser over character sequences. Each function consumes
// a prefix and returns what it denotes plus the rest, or nothing.
// ---------------------------------------------------------------------------

/// The literal `lit` itself.
pub open spec fn sp_lit(s: Seq<char>, lit: Seq<char>) -> Option<Seq<char>> {
    if lit.len() <= s.len() && s.take(lit.len() as int) == lit {
        Some(s.skip(lit.len() as int))
    } else {
        None
    }
}

pub open spec fn is_ws(c: char) -> bool {
    c == ' ' || c == '\t' || c == '\n' || c == '\r'
}

/// The rest after any leading whitespace.
pub open spec fn sp_ws(s: Seq<char>) -> Seq<char>
    decreases s.len(),
{
    if s.len() > 0 && is_ws(s[0]) {
        sp_ws(s.drop_first())
    } else {
        s
    }
}

/// The literal `lit`, allowing whitespace before it.
pub open spec fn sp_tok(s: Seq<char>, lit: Seq<char>) -> Option<Seq<char>> {
    sp_lit(sp_ws(s), lit)
}

pub proof fn lemma_sp_ws_len(s: Seq<char>)
    ensures
        sp_ws(s).len() <= s.len(),
    decreases s.len(),
{
    if s.len() > 0 && is_ws(s[0]) {
        lemma_sp_ws_len(s.drop_first());
    }
}

pub open spec fn unesc_char(c: char) -> Option<char> {
    if c == '"' {
        Some('"')
    } else if c == '\\' {
        Some('\\')
    } else if c == '/' {
        Some('/')
    } else if c == 'b' {
        Some('\u{0008}')
    } else if c == 'f' {
        Some('\u{000C}')
    } else if c == 'n' {
        Some('\n')
    } else if c == 't' {
        Some('\t')
    } else if c == 'r' {
        Some('\r')
    } else {
        None
    }
}

pub open spec fn hex_val(c: char) -> Option<int> {
    if '0' <= c && c <= '9' {
        Some(c as int - '0' as int)
    } else if 'a' <= c && c <= 'f' {
        Some(c as int - 'a' as int + 10)
    } else if 'A' <= c && c <= 'F' {
        Some(c as int - 'A' as int + 10)
    } else {
        None
    }
}

/// The code point four hex digits denote.
pub open spec fn hex4_val(a: char, b: char, c: char, d: char) -> Option<int> {
    match (hex_val(a), hex_val(b), hex_val(c), hex_val(d)) {
        (Some(x), Some(y), Some(z), Some(w)) => Some(((x * 16 + y) * 16 + z) * 16 + w),
        _ => None,
    }
}

/// A string body after its opening quote, up to and including the closing
/// quote. `\uXXXX` covers the basic plane; a surrogate code is malformed.
pub open spec fn sp_string_body(s: Seq<char>) -> Option<(Seq<char>, Seq<char>)>
    decreases s.len(),
{
    if s.len() == 0 {
        None
    } else if s[0] == '"' {
        Some((Seq::empty(), s.drop_first()))
    } else if s[0] == '\\' {
        if s.len() < 2 {
            None
        } else if s[1] == 'u' {
            if s.len() < 6 {
                None
            } else {
                match hex4_val(s[2], s[3], s[4], s[5]) {
                    None => None,
                    Some(code) => if 0xD800 <= code && code < 0xE000 {
                        None
                    } else {
                        match sp_string_body(s.skip(6)) {
                            None => None,
                            Some((body, rest)) => Some(
                                (seq![((code as u32) as char)] + body, rest),
                            ),
                        }
                    },
                }
            }
        } else {
            match unesc_char(s[1]) {
                None => None,
                Some(u) => match sp_string_body(s.skip(2)) {
                    None => None,
                    Some((body, rest)) => Some((seq![u] + body, rest)),
                },
            }
        }
    } else {
        match sp_string_body(s.drop_first()) {
            None => None,
            Some((body, rest)) => Some((seq![s[0]] + body, rest)),
        }
    }
}

/// Leading digits folded onto an accumulator; stops at the first non-digit.
pub open spec fn sp_digits(s: Seq<char>, acc: int) -> (int, Seq<char>)
    decreases s.len(),
{
    if s.len() > 0 && is_digit(s[0]) {
        sp_digits(s.drop_first(), acc * 10 + digit_val(s[0]))
    } else {
        (acc, s)
    }
}

/// A number: a non-empty digit run whose value fits in 64 bits.
pub open spec fn sp_number(s: Seq<char>) -> Option<(u64, Seq<char>)> {
    if s.len() > 0 && is_digit(s[0]) {
        let folded = sp_digits(s, 0);
        if folded.0 <= u64::MAX {
            Some((folded.0 as u64, folded.1))
        } else {
            None
        }
    } else {
        None
    }
}

/// The credential value: `null` or a quoted string, after any whitespace.
pub open spec fn sp_cred(s: Seq<char>) -> Option<(Option<Seq<char>>, Seq<char>)> {
    let t = sp_ws(s);
    match sp_lit(t, "null"@) {
        Some(r) => Some((None, r)),
        None => if t.len() > 0 && t[0] == '"' {
            match sp_string_body(t.drop_first()) {
                None => None,
                Some((body, rest)) => Some((Some(body), rest)),
            }
        } else {
            None
        },
    }
}

/// One `"key":value` entry, whitespace allowed around its tokens.
pub open spec fn sp_pair(s: Seq<char>) -> Option<((Seq<char>, u64), Seq<char>)> {
    let t = sp_ws(s);
    if t.len() > 0 && t[0] == '"' {
        match sp_string_body(t.drop_first()) {
            None => None,
            Some((key, r1)) => match sp_tok(r1, ":"@) {
                None => None,
                Some(r2) => match sp_number(sp_ws(r2)) {
                    None => None,
                    Some((v, r3)) => Some(((key, v), r3)),
                },
            },
        }
    } else {
        None
    }
}

pub proof fn lemma_sp_string_body_shrinks(s: Seq<char>)
    ensures
        sp_string_body(s) matches Some(br) ==> br.1.len() < s.len(),
    decreases s.len(),
{
    if s.len() > 0 && s[0] != '"' {
        if s[0] == '\\' {
            if s.len() >= 6 && s[1] == 'u' {
                lemma_sp_string_body_shrinks(s.skip(6));
            } else if s.len() >= 2 {
                lemma_sp_string_body_shrinks(s.skip(2));
            }
        } else {
            lemma_sp_string_body_shrinks(s.drop_first());
        }
    }
}

pub proof fn lemma_sp_digits_len(s: Seq<char>, acc: int)
    ensures
        sp_digits(s, acc).1.len() <= s.len(),
    decreases s.len(),
{
    if s.len() > 0 && is_digit(s[0]) {
        lemma_sp_digits_len(s.drop_first(), acc * 10 + digit_val(s[0]));
    }
}

pub proof fn lemma_sp_pair_shrinks(s: Seq<char>)
    ensures
        sp_pair(s) matches Some(pr) ==> pr.1.len() < s.len(),
{
    let t = sp_ws(s);
    lemma_sp_ws_len(s);
    if t.len() > 0 && t[0] == '"' {
        lemma_sp_string_body_shrinks(t.drop_first());
        match sp_string_body(t.drop_first()) {
            Some((key, r1)) => {
                lemma_sp_ws_len(r1);
                match sp_tok(r1, ":"@) {
                    Some(r2) => {
                        lemma_sp_ws_len(r2);
                        lemma_sp_digits_len(sp_ws(r2), 0);
                    },
                    None => {},
                }
            },
            None => {},
        }
    }
}

/// Entries after the first: `,"key":value` repeated, ending before `}`.
pub open spec fn sp_pairs_rest(s: Seq<char>) -> Option<
    (Seq<(Seq<char>, u64)>, Seq<char>),
>
    decreases s.len(),
    via sp_pairs_rest_dec
{
    let t = sp_ws(s);
    if t.len() > 0 && t[0] == ',' {
        match sp_pair(t.drop_first()) {
            None => None,
            Some((p, r)) => match sp_pairs_rest(r) {
                None => None,
                Some((ps, rest)) => Some((seq![p] + ps, rest)),
            },
        }
    } else {
        Some((Seq::empty(), s))
    }
}

#[via_fn]
proof fn sp_pairs_rest_dec(s: Seq<char>) {
    lemma_sp_ws_len(s);
    let t = sp_ws(s);
    if t.len() > 0 && t[0] == ',' {
        lemma_sp_pair_shrinks(t.drop_first());
    }
}

/// All entries of the duration table, ending before `}`.
pub open spec fn sp_pairs(s: Seq<char>) -> Option<(Seq<(Seq<char>, u64)>, Seq<char>)> {
    let t = sp_ws(s);
    if t.len() > 0 && t[0] == '}' {
        Some((Seq::empty(), s))
    } else {
        match sp_pair(s) {
            None => None,
            Some((p, r)) => match sp_pairs_rest(r) {
                None => None,
                Some((ps, rest)) => Some((seq![p] + ps, rest)),
            },
        }
    }
}

/// The duration table: `{` entries `}`.
pub open spec fn sp_table(s: Seq<char>) -> Option<(Seq<(Seq<char>, u64)>, Seq<char>)> {
    match sp_tok(s, "{"@) {
        None => None,
        Some(r1) => match sp_pairs(r1) {
            None => None,
            Some((entries, r2)) => match sp_tok(r2, "}"@) {
                None => None,
                Some(r3) => Some((entries, r3)),
            },
        },
    }
}

/// The two fields of the record, each exactly once, in either order.
pub open spec fn sp_fields(s: Seq<char>) -> Option<
    ((Option<Seq<char>>, Seq<(Seq<char>, u64)>), Seq<char>),
> {
    match sp_tok(s, "\"spotify_access_token\""@) {
        Some(r1) => match sp_tok(r1, ":"@) {
            None => None,
            Some(r2) => match sp_cred(r2) {
                None => None,
                Some((cred, r3)) => match sp_tok(r3, ","@) {
                    None => None,
                    Some(r4) => match sp_tok(r4, "\"track_durations\""@) {
                        None => None,
                        Some(r5) => match sp_tok(r5, ":"@) {
                            None => None,
                            Some(r6) => match sp_table(r6) {
                                None => None,
                                Some((entries, r7)) => Some(((cred, entries), r7)),
                            },
                        },
                    },
                },
            },
        },
        None => match sp_tok(s, "\"track_durations\""@) {
            None => None,
            Some(r1) => match sp_tok(r1, ":"@) {
                None => None,
                Some(r2) => match sp_table(r2) {
                    None => None,
                    Some((entries, r3)) => match sp_tok(r3, ","@) {
                        None => None,
                        Some(r4) => match sp_tok(r4, "\"spotify_access_token\""@) {
                            None => None,
                            Some(r5) => match sp_tok(r5, ":"@) {
                                None => None,
                                Some(r6) => match sp_cred(r6) {
                                    None => None,
                                    Some((cred, r7)) => Some(((cred, entries), r7)),
                                },
                            },
                        },
                    },
                },
            },
        },
    }
}

/// What a durable record denotes: defined exactly on well-formed records
/// with unique keys and nothing but whitespace trailing.
pub open spec fn sp_cache(s: Seq<char>) -> Option<CacheModel> {
    match sp_tok(s, "{"@) {
        None => None,
        Some(r1) => match sp_fields(r1) {
            None => None,
            Some(((cred, entries), r2)) => match sp_tok(r2, "}"@) {
                None => None,
                Some(r3) => if sp_ws(r3).len() == 0 && CacheModel::keys_unique(entries) {
                    Some(CacheModel { credential: cred, durations: entries })
                } else {
                    None
                },
            },
        },
    }
}

// ---------------------------------------------------------------------------
// The encoder.
// ---------------------------------------------------------------------------

/// Relies on `String`'s `FromIterator<char>`: collecting characters yields
/// the string of exactly those characters, in order.
#[verifier::external_body]
fn chars_to_string(v: &Vec<char>) -> (r: String)
    ensures
        r@ == v@,
{
    v.iter().collect()
}

/// The characters of a string, in order.
#[verifier::loop_isolation(false)]
fn str_to_chars(s: &str) -> (v: Vec<char>)
    ensures
        v@ == s@,
{
    let n = s.unicode_len();
    let mut v: Vec<char> = Vec::new();
    let mut i: usize = 0;
    while i < n
        invariant
            i <= n,
            v@ == s@.take(i as int),
        decreases n - i,
    {
        let c = s.get_char(i);
        v.push(c);
        proof {
            assert(s@.take(i as int + 1) =~= s@.take(i as int).push(s@[i as int]));
        }
        i = i + 1;
    }
    proof {
        assert(s@.take(n as int) =~= s@);
    }
    v
}

/// Appends the characters of `s` to `out`, unchanged.
#[verifier::loop_isolation(false)]
fn push_str_chars(out: &mut Vec<char>, s: &str)
    ensures
        final(out)@ == old(out)@ + s@,
{
    let n = s.unicode_len();
    let mut i: usize = 0;
    while i < n
        invariant
            i <= n,
            out@ == old(out)@ + s@.take(i as int),
        decreases n - i,
    {
        let c = s.get_char(i);
        out.push(c);
        proof {
            assert(s@.take(i as int + 1) =~= s@.take(i as int).push(s@[i as int]));
            assert(old(out)@ + s@.take(i as int + 1) =~= (old(out)@ + s@.take(i as int)).push(
                s@[i as int],
            ));
        }
        i = i + 1;
    }
    proof {
        assert(s@.take(n as int) =~= s@);
    }
}

/// Escaping distributes over appending one character.
proof fn lemma_esc_str_push(s: Seq<char>, c: char)
    ensures
        esc_str(s.push(c)) == esc_str(s) + esc_char(c),
    decreases s.len(),
{
    reveal_with_fuel(esc_str, 3);
    if s.len() == 0 {
        assert(s.push(c)[0] == c);
        assert(s.push(c).drop_first() =~= Seq::<char>::empty());
        assert(esc_str(s.push(c)) =~= esc_str(s) + esc_char(c));
    } else {
        assert(s.push(c)[0] == s[0]);
        assert(s.push(c).drop_first() =~= s.drop_first().push(c));
        lemma_esc_str_push(s.drop_first(), c);
        assert(esc_char(s[0]) + (esc_str(s.drop_first()) + esc_char(c)) =~= (esc_char(s[0])
            + esc_str(s.drop_first())) + esc_char(c));
    }
}

/// Appends the escaped form of `s` to `out`.
#[verifier::loop_isolation(false)]
fn push_esc(out: &mut Vec<char>, s: &str)
    ensures
        final(out)@ == old(out)@ + esc_str(s@),
{
    let n = s.unicode_len();
    let mut i: usize = 0;
    proof {
        assert(esc_str(s@.take(0)) =~= Seq::<char>::empty());
        assert(out@ =~= old(out)@ + esc_str(s@.take(0)));
    }
    while i < n
        invariant
            i <= n,
            out@ == old(out)@ + esc_str(s@.take(i as int)),
        decreases n - i,
    {
        let c = s.get_char(i);
        if c == '"' {
            out.push('\\');
            out.push('"');
        } else if c == '\\' {
            out.push('\\');
            out.push('\\');
        } else {
            out.push(c);
        }
        proof {
            assert(s@.take(i as int + 1) =~= s@.take(i as int).push(s@[i as int]));
            lemma_esc_str_push(s@.take(i as int), s@[i as int]);
            assert(out@ =~= old(out)@ + esc_str(s@.take(i as int + 1)));
        }
        i = i + 1;
    }
    proof {
        assert(s@.take(n as int) =~= s@);
    }
}

/// Appends the quoted, escaped form of `s` to `out`.
fn push_quoted(out: &mut Vec<char>, s: &str)
    ensures
        final(out)@ == old(out)@ + enc_string(s@),
{
    out.push('"');
    push_esc(out, s);
    out.push('"');
    proof {
        assert(out@ =~= old(out)@ + enc_string(s@));
    }
}

/// Appending one entry extends the comma-separated tail by one element.
proof fn lemma_enc_rest_push(entries: Seq<(Seq<char>, u64)>, p: (Seq<char>, u64))
    ensures
        enc_rest(entries.push(p)) == enc_rest(entries) + seq![','] + enc_pair(p),
    decreases entries.len(),
{
    reveal_with_fuel(enc_rest, 3);
    if entries.len() == 0 {
        assert(entries.push(p)[0] == p);
        assert(entries.push(p).drop_first() =~= Seq::<(Seq<char>, u64)>::empty());
        assert(enc_rest(entries.push(p)) =~= (enc_rest(entries) + seq![',']) + enc_pair(p));
    } else {
        assert(entries.push(p)[0] == entries[0]);
        assert(entries.push(p).drop_first() =~= entries.drop_first().push(p));
        lemma_enc_rest_push(entries.drop_first(), p);
        assert(enc_rest(entries.push(p)) =~= (enc_rest(entries) + seq![',']) + enc_pair(p));
    }
}

/// Appends `"key":value` to `out`.
fn push_pair(out: &mut Vec<char>, key: &str, value: u64)
    ensures
        final(out)@ == old(out)@ + enc_pair((key@, value)),
{
    push_quoted(out, key);
    out.push(':');
    crate::numbers::push_dec_u64(out, value);
    proof {
        assert(out@ =~= old(out)@ + enc_pair((key@, value)));
    }
}

/// Renders a cache in its durable form.
#[verifier::loop_isolation(false)]
pub fn encode_cache(c: &crate::cache::Cache) -> (r: String)
    ensures
        r@ == enc_cache(c@),
{
    let mut out: Vec<char> = Vec::new();
    out.push('{');
    push_str_chars(&mut out, "\"spotify_access_token\"");
    out.push(':');
    match &c.spotify_access_token {
        None => push_str_chars(&mut out, "null"),
        Some(s) => push_quoted(&mut out, s.as_str()),
    }
    out.push(',');
    push_str_chars(&mut out, "\"track_durations\"");
    out.push(':');
    out.push('{');
    let ghost head = out@;
    let n = c.track_durations.len();
    if n > 0 {
        push_pair(&mut out, c.track_durations[0].0.as_str(), c.track_durations[0].1);
        proof {
            assert(c@.durations[0] == (c.track_durations@[0].0@, c.track_durations@[0].1));
            assert(enc_rest(c@.durations.take(1).drop_first()) =~= Seq::<char>::empty());
            assert(out@ =~= head + enc_pair(c@.durations[0]) + enc_rest(
                c@.durations.take(1).drop_first(),
            ));
        }
        let mut i: usize = 1;
        while i < n
            invariant
                1 <= i <= n,
                out@ == head + enc_pair(c@.durations[0]) + enc_rest(
                    c@.durations.take(i as int).drop_first(),
                ),
            decreases n - i,
        {
            out.push(',');
            push_pair(&mut out, c.track_durations[i].0.as_str(), c.track_durations[i].1);
            proof {
                assert(c@.durations[i as int] == (
                    c.track_durations@[i as int].0@,
                    c.track_durations@[i as int].1,
                ));
                assert(c@.durations.take(i as int + 1).drop_first() =~= c@.durations.take(
                    i as int,
                ).drop_first().push(c@.durations[i as int]));
                lemma_enc_rest_push(
                    c@.durations.take(i as int).drop_first(),
                    c@.durations[i as int],
                );
                assert(out@ =~= head + enc_pair(c@.durations[0]) + enc_rest(
                    c@.durations.take(i as int + 1).drop_first(),
                ));
            }
            i = i + 1;
        }
        proof {
            assert(c@.durations.take(n as int) =~= c@.durations);
            assert(enc_pairs(c@.durations) == enc_pair(c@.durations[0]) + enc_rest(
                c@.durations.drop_first(),
            ));
            assert(out@ =~= head + enc_pairs(c@.durations));
        }
    } else {
        proof {
            assert(enc_pairs(c@.durations) =~= Seq::<char>::empty());
            assert(out@ =~= head + enc_pairs(c@.durations));
        }
    }
    out.push('}');
    out.push('}');
    proof {
        assert(out@ =~= enc_cache(c@));
    }
    chars_to_string(&out)
}

// ---------------------------------------------------------------------------
// The parser.
// ---------------------------------------------------------------------------

fn unescape_char(c: char) -> (r: Option<char>)
    ensures
        r == unesc_char(c),
{
    match c {
        '"' => Some('"'),
        '\\' => Some('\\'),
        '/' => Some('/'),
        'b' => Some('\u{0008}'),
        'f' => Some('\u{000C}'),
        'n' => Some('\n'),
        't' => Some('\t'),
        'r' => Some('\r'),
        _ => None,
    }
}

fn hex_digit_val(c: char) -> (r: Option<u32>)
    ensures
        match r {
            Some(x) => hex_val(c) == Some(x as int) && x < 16,
            None => hex_val(c) is None,
        },
{
    if '0' <= c && c <= '9' {
        Some(c as u32 - 48)
    } else if 'a' <= c && c <= 'f' {
        Some(c as u32 - 87)
    } else if 'A' <= c && c <= 'F' {
        Some(c as u32 - 55)
    } else {
        None
    }
}

/// Relies on `char::from_u32`: for a valid code point (not a surrogate, at
/// most 0x10FFFF) it returns the character with exactly that code.
#[verifier::external_body]
fn char_from_code(code: u32) -> (r: char)
    requires
        code < 0xD800 || (0xE000 <= code && code <= 0x10FFFF),
    ensures
        r == code as char,
{
    char::from_u32(code).unwrap_or(' ')
}

/// The rest of `v` after any whitespace from `start` on.
#[verifier::loop_isolation(false)]
fn skip_ws(v: &Vec<char>, start: usize) -> (r: usize)
    requires
        start <= v.len(),
    ensures
        start <= r <= v.len(),
        v@.skip(r as int) == sp_ws(v@.skip(start as int)),
{
    let mut j: usize = start;
    loop
        invariant
            start <= j <= v.len(),
            sp_ws(v@.skip(start as int)) == sp_ws(v@.skip(j as int)),
        decreases v.len() - j,
    {
        if j < v.len() {
            let c = v[j];
            proof {
                assert(v@.skip(j as int)[0] == v@[j as int]);
            }
            if c == ' ' || c == '\t' || c == '\n' || c == '\r' {
                proof {
                    assert(v@.skip(j as int).drop_first() =~= v@.skip(j as int + 1));
                }
                j = j + 1;
                continue;
            }
        }
        return j;
    }
}

/// Consumes a string body (after its opening quote) up to the closing
/// quote, undoing escapes, exactly as `sp_string_body` states.
#[verifier::loop_isolation(false)]
#[verifier::rlimit(50)]
fn parse_string_body(v: &Vec<char>, start: usize) -> (r: Option<(Vec<char>, usize)>)
    requires
        start <= v.len(),
    ensures
        match sp_string_body(v@.skip(start as int)) {
            Some(br) => (r matches Some(x) && x.0@ == br.0 && start <= x.1 <= v.len() && v@.skip(
                x.1 as int,
            ) == br.1),
            None => r is None,
        },
{
    let mut acc: Vec<char> = Vec::new();
    let mut j: usize = start;
    proof {
        match sp_string_body(v@.skip(start as int)) {
            Some(br2) => {
                assert(acc@ + br2.0 =~= br2.0);
            },
            None => {},
        }
    }
    loop
        invariant
            start <= j <= v.len(),
            ({
                match sp_string_body(v@.skip(j as int)) {
                    Some(br2) => sp_string_body(v@.skip(start as int)) == Some(
                        (acc@ + br2.0, br2.1),
                    ),
                    None => sp_string_body(v@.skip(start as int)) is None,
                }
            }),
        decreases v.len() - j,
    {
        if j >= v.len() {
            return None;
        }
        let c = v[j];
        proof {
            assert(v@.skip(j as int)[0] == v@[j as int]);
        }
        if c == '"' {
            proof {
                assert(v@.skip(j as int).drop_first() =~= v@.skip(j as int + 1));
                assert(acc@ + Seq::<char>::empty() =~= acc@);
            }
            return Some((acc, j + 1));
        } else if c == '\\' {
            if j + 1 >= v.len() {
                return None;
            }
            proof {
                assert(v@.skip(j as int)[1] == v@[j as int + 1]);
            }
            if v[j + 1] == 'u' {
                if v.len() - j < 6 {
                    return None;
                }
                proof {
                    assert(v@.skip(j as int)[2] == v@[j as int + 2]);
                    assert(v@.skip(j as int)[3] == v@[j as int + 3]);
                    assert(v@.skip(j as int)[4] == v@[j as int + 4]);
                    assert(v@.skip(j as int)[5] == v@[j as int + 5]);
                }
                let x0 = match hex_digit_val(v[j + 2]) {
                    Some(x) => x,
                    None => {
                        return None;
                    },
                };
                let x1 = match hex_digit_val(v[j + 3]) {
                    Some(x) => x,
                    None => {
                        return None;
                    },
                };
                let x2 = match hex_digit_val(v[j + 4]) {
                    Some(x) => x,
                    None => {
                        return None;
                    },
                };
                let x3 = match hex_digit_val(v[j + 5]) {
                    Some(x) => x,
                    None => {
                        return None;
                    },
                };
                let code: u32 = ((x0 * 16 + x1) * 16 + x2) * 16 + x3;
                if 0xD800 <= code && code < 0xE000 {
                    return None;
                }
                let u = char_from_code(code);
                proof {
                    assert(v@.skip(j as int).skip(6) =~= v@.skip(j as int + 6));
                    match sp_string_body(v@.skip(j as int + 6)) {
                        Some(br2) => {
                            assert(acc@ + (seq![u] + br2.0) =~= acc@.push(u) + br2.0);
                        },
                        None => {},
                    }
                }
                acc.push(u);
                j = j + 6;
            } else {
                let u = match unescape_char(v[j + 1]) {
                    Some(u) => u,
                    None => {
                        return None;
                    },
                };
                proof {
                    assert(v@.skip(j as int).skip(2) =~= v@.skip(j as int + 2));
                    match sp_string_body(v@.skip(j as int + 2)) {
                        Some(br2) => {
                            assert(acc@ + (seq![u] + br2.0) =~= acc@.push(u) + br2.0);
                        },
                        None => {},
                    }
                }
                acc.push(u);
                j = j + 2;
            }
        } else {
            proof {
                assert(v@.skip(j as int).drop_first() =~= v@.skip(j as int + 1));
                match sp_string_body(v@.skip(j as int + 1)) {
                    Some(br2) => {
                        assert(acc@ + (seq![v@[j as int]] + br2.0) =~= acc@.push(v@[j as int])
                            + br2.0);
                    },
                    None => {},
                }
            }
            acc.push(c);
            j = j + 1;
        }
    }
}

/// Folding more digits onto a non-negative accumulator never shrinks it.
proof fn lemma_sp_digits_ge(s: Seq<char>, acc: int)
    requires
        acc >= 0,
    ensures
        sp_digits(s, acc).0 >= acc,
    decreases s.len(),
{
    if s.len() > 0 && is_digit(s[0]) {
        lemma_sp_digits_ge(s.drop_first(), acc * 10 + digit_val(s[0]));
        assert(acc * 10 >= acc);
    }
}

/// Consumes a digit run into a `u64`, exactly as `sp_number` states.
#[verifier::loop_isolation(false)]
fn parse_number(v: &Vec<char>, start: usize) -> (r: Option<(u64, usize)>)
    requires
        start <= v.len(),
    ensures
        match sp_number(v@.skip(start as int)) {
            Some(nr) => (r matches Some(x) && x.0 == nr.0 && start <= x.1 <= v.len() && v@.skip(
                x.1 as int,
            ) == nr.1),
            None => r is None,
        },
{
    if start >= v.len() {
        return None;
    }
    let c0 = v[start];
    proof {
        assert(v@.skip(start as int)[0] == v@[start as int]);
    }
    if c0 < '0' || c0 > '9' {
        return None;
    }
    let mut acc: u128 = 0;
    let mut j: usize = start;
    loop
        invariant
            start <= j <= v.len(),
            acc <= u64::MAX as u128,
            sp_digits(v@.skip(start as int), 0) == sp_digits(v@.skip(j as int), acc as int),
            is_digit(v@.skip(start as int)[0]),
        decreases v.len() - j,
    {
        if j < v.len() {
            let c = v[j];
            proof {
                assert(v@.skip(j as int)[0] == v@[j as int]);
            }
            if '0' <= c && c <= '9' {
                let d = (c as u32 - 48) as u128;
                proof {
                    assert(v@.skip(j as int).drop_first() =~= v@.skip(j as int + 1));
                }
                acc = acc * 10 + d;
                if acc > u64::MAX as u128 {
                    proof {
                        lemma_sp_digits_ge(v@.skip(j as int + 1), acc as int);
                    }
                    return None;
                }
                j = j + 1;
                continue;
            }
        }
        return Some((acc as u64, j));
    }
}

/// Consumes exactly the literal `lit`.
#[verifier::loop_isolation(false)]
fn expect_lit(v: &Vec<char>, start: usize, lit: &str) -> (r: Option<usize>)
    requires
        start <= v.len(),
    ensures
        match sp_lit(v@.skip(start as int), lit@) {
            Some(rest) => (r matches Some(j) && start <= j <= v.len() && v@.skip(j as int)
                == rest),
            None => r is None,
        },
{
    let l = lit.unicode_len();
    if l > v.len() - start {
        return None;
    }
    let mut k: usize = 0;
    while k < l
        invariant
            k <= l,
            start + l <= v.len(),
            forall|t: int| 0 <= t < k ==> v@[start + t] == lit@[t],
        decreases l - k,
    {
        if v[start + k] != lit.get_char(k) {
            proof {
                assert(v@.skip(start as int).take(l as int)[k as int] == v@[start as int
                    + k as int]);
            }
            return None;
        }
        k = k + 1;
    }
    proof {
        assert(v@.skip(start as int).take(l as int) =~= lit@);
        assert(v@.skip(start as int).skip(l as int) =~= v@.skip(start as int + l as int));
    }
    Some(start + l)
}

/// Consumes the literal `lit` after any whitespace.
fn expect_tok(v: &Vec<char>, start: usize, lit: &str) -> (r: Option<usize>)
    requires
        start <= v.len(),
    ensures
        match sp_tok(v@.skip(start as int), lit@) {
            Some(rest) => (r matches Some(j) && start <= j <= v.len() && v@.skip(j as int)
                == rest),
            None => r is None,
        },
{
    let t = skip_ws(v, start);
    expect_lit(v, t, lit)
}

/// Consumes the credential value, exactly as `sp_cred` states.
fn parse_cred(v: &Vec<char>, start: usize) -> (r: Option<(Option<String>, usize)>)
    requires
        start <= v.len(),
    ensures
        match sp_cred(v@.skip(start as int)) {
            Some(cr) => (r matches Some(x) && start <= x.1 <= v.len() && v@.skip(x.1 as int)
                == cr.1 && match x.0 {
                Some(sv) => cr.0 == Some(sv@),
                None => cr.0 is None,
            }),
            None => r is None,
        },
{
    let t = skip_ws(v, start);
    match expect_lit(v, t, "null") {
        Some(j) => Some((None, j)),
        None => {
            if t < v.len() && v[t] == '"' {
                proof {
                    assert(v@.skip(t as int)[0] == v@[t as int]);
                    assert(v@.skip(t as int).drop_first() =~= v@.skip(t as int + 1));
                }
                match parse_string_body(v, t + 1) {
                    Some(body) => Some((Some(chars_to_string(&body.0)), body.1)),
                    None => None,
                }
            } else {
                proof {
                    if t < v.len() {
                        assert(v@.skip(t as int)[0] == v@[t as int]);
                    }
                }
                None
            }
        },
    }
}

/// Consumes one `"key":value` entry, exactly as `sp_pair` states.
fn parse_pair(v: &Vec<char>, start: usize) -> (r: Option<((String, u64), usize)>)
    requires
        start <= v.len(),
    ensures
        match sp_pair(v@.skip(start as int)) {
            Some(pr) => (r matches Some(x) && x.0.0@ == pr.0.0 && x.0.1 == pr.0.1 && start <= x.1
                <= v.len() && v@.skip(x.1 as int) == pr.1),
            None => r is None,
        },
{
    let t = skip_ws(v, start);
    if t >= v.len() {
        return None;
    }
    proof {
        assert(v@.skip(t as int)[0] == v@[t as int]);
    }
    if v[t] != '"' {
        return None;
    }
    proof {
        assert(v@.skip(t as int).drop_first() =~= v@.skip(t as int + 1));
    }
    let parsed_key = match parse_string_body(v, t + 1) {
        Some(x) => x,
        None => {
            return None;
        },
    };
    let j1 = parsed_key.1;
    let j2 = match expect_tok(v, j1, ":") {
        Some(x) => x,
        None => {
            return None;
        },
    };
    let j3 = skip_ws(v, j2);
    let parsed_val = match parse_number(v, j3) {
        Some(x) => x,
        None => {
            return None;
        },
    };
    Some(((chars_to_string(&parsed_key.0), parsed_val.0), parsed_val.1))
}

/// True exactly when no two entries share a key, at the view level.
#[verifier::loop_isolation(false)]
fn keys_distinct(entries: &Vec<(String, u64)>) -> (r: bool)
    ensures
        r == CacheModel::keys_unique(entries@.map_values(|p: (String, u64)| (p.0@, p.1))),
{
    let ghost ev = entries@.map_values(|p: (String, u64)| (p.0@, p.1));
    let n = entries.len();
    let mut i: usize = 0;
    while i < n
        invariant
            i <= n,
            forall|a: int, b: int| 0 <= a < b < n && a < i ==> ev[a].0 != ev[b].0,
        decreases n - i,
    {
        let mut j: usize = i + 1;
        while j < n
            invariant
                i < j <= n,
                forall|b: int| i < b < j ==> ev[i as int].0 != ev[b].0,
            decreases n - j,
        {
            if entries[i].0 == entries[j].0 {
                proof {
                    assert(ev[i as int].0 == ev[j as int].0);
                }
                return false;
            }
            j = j + 1;
        }
        i = i + 1;
    }
    true
}

/// Consumes the duration table `{ "id": ms, ... }`, exactly as `sp_table`
/// states.
#[verifier::loop_isolation(false)]
fn parse_table(v: &Vec<char>, start: usize) -> (r: Option<(Vec<(String, u64)>, usize)>)
    requires
        start <= v.len(),
    ensures
        match sp_table(v@.skip(start as int)) {
            Some(tr) => (r matches Some(x) && start <= x.1 <= v.len() && v@.skip(x.1 as int)
                == tr.1 && x.0@.map_values(|p: (String, u64)| (p.0@, p.1)) == tr.0),
            None => r is None,
        },
{
    let i0 = match expect_tok(v, start, "{") {
        Some(x) => x,
        None => {
            return None;
        },
    };
    let mut entries: Vec<(String, u64)> = Vec::new();
    let mut j: usize = i0;
    let ghost entries_view_fn = |p: (String, u64)| (p.0@, p.1);
    let t0 = skip_ws(v, i0);
    if t0 < v.len() && v[t0] == '}' {
        proof {
            assert(v@.skip(t0 as int)[0] == v@[t0 as int]);
            assert(sp_pairs(v@.skip(i0 as int)) == Some(
                (Seq::<(Seq<char>, u64)>::empty(), v@.skip(i0 as int)),
            ));
            assert(entries@.map_values(entries_view_fn) =~= Seq::<(Seq<char>, u64)>::empty());
        }
    } else {
        proof {
            if t0 < v.len() {
                assert(v@.skip(t0 as int)[0] == v@[t0 as int]);
            }
        }
        let first = match parse_pair(v, i0) {
            Some(x) => x,
            None => {
                return None;
            },
        };
        entries.push(first.0);
        j = first.1;
        proof {
            assert(entries@.map_values(entries_view_fn) =~= seq![
                (entries@[0].0@, entries@[0].1),
            ]);
        }
        loop
            invariant
                i0 <= j <= v.len(),
                ({
                    let eview = entries@.map_values(entries_view_fn);
                    match sp_pairs_rest(v@.skip(j as int)) {
                        Some(pr) => sp_pairs(v@.skip(i0 as int)) == Some((eview + pr.0, pr.1)),
                        None => sp_pairs(v@.skip(i0 as int)) is None,
                    }
                }),
            decreases v.len() - j,
        {
            let t = skip_ws(v, j);
            if t < v.len() {
                proof {
                    assert(v@.skip(t as int)[0] == v@[t as int]);
                }
                if v[t] == ',' {
                    proof {
                        assert(v@.skip(t as int).drop_first() =~= v@.skip(t as int + 1));
                    }
                    let p = match parse_pair(v, t + 1) {
                        Some(x) => x,
                        None => {
                            return None;
                        },
                    };
                    proof {
                        let eview = entries@.map_values(entries_view_fn);
                        let pview = (p.0.0@, p.0.1);
                        assert(entries@.push(p.0).map_values(entries_view_fn) =~= eview.push(
                            pview,
                        ));
                        match sp_pairs_rest(v@.skip(p.1 as int)) {
                            Some(pr2) => {
                                assert(eview + (seq![pview] + pr2.0) =~= eview.push(pview)
                                    + pr2.0);
                            },
                            None => {},
                        }
                    }
                    entries.push(p.0);
                    j = p.1;
                    continue;
                }
            }
            // No further comma: the remaining-entries tail is empty.
            proof {
                let eview = entries@.map_values(entries_view_fn);
                assert(sp_pairs_rest(v@.skip(j as int)) == Some(
                    (Seq::<(Seq<char>, u64)>::empty(), v@.skip(j as int)),
                ));
                assert(eview + Seq::<(Seq<char>, u64)>::empty() =~= eview);
            }
            break;
        }
    }
    let jr = match expect_tok(v, j, "}") {
        Some(x) => x,
        None => {
            return None;
        },
    };
    proof {
        assert(entries@.map_values(|p: (String, u64)| (p.0@, p.1)) =~= entries@.map_values(
            entries_view_fn,
        ));
    }
    Some((entries, jr))
}

/// Parses the durable form back into a cache. Exactly the records that
/// `sp_cache` accepts decode; anything else is corruption, a hard error.
pub fn decode_cache(s: &str) -> (r: Result<crate::cache::Cache, crate::errors::ErrorKind>)
    ensures
        match r {
            Ok(c) => sp_cache(s@) == Some(c@) && c.wf(),
            Err(e) => sp_cache(s@) is None && e == crate::errors::ErrorKind::CacheCorrupt,
        },
{
    let v = str_to_chars(s);
    proof {
        assert(v@.skip(0) =~= s@);
    }
    let r1 = match expect_tok(&v, 0, "{") {
        Some(x) => x,
        None => {
            return Err(crate::errors::ErrorKind::CacheCorrupt);
        },
    };
    let cred: Option<String>;
    let entries: Vec<(String, u64)>;
    let rend: usize;
    match expect_tok(&v, r1, "\"spotify_access_token\"") {
        Some(k1) => {
            let c1 = match expect_tok(&v, k1, ":") {
                Some(x) => x,
                None => {
                    return Err(crate::errors::ErrorKind::CacheCorrupt);
                },
            };
            let credp = match parse_cred(&v, c1) {
                Some(x) => x,
                None => {
                    return Err(crate::errors::ErrorKind::CacheCorrupt);
                },
            };
            let c2 = match expect_tok(&v, credp.1, ",") {
                Some(x) => x,
                None => {
                    return Err(crate::errors::ErrorKind::CacheCorrupt);
                },
            };
            let k2 = match expect_tok(&v, c2, "\"track_durations\"") {
                Some(x) => x,
                None => {
                    return Err(crate::errors::ErrorKind::CacheCorrupt);
                },
            };
            let c3 = match expect_tok(&v, k2, ":") {
                Some(x) => x,
                None => {
                    return Err(crate::errors::ErrorKind::CacheCorrupt);
                },
            };
            let tab = match parse_table(&v, c3) {
                Some(x) => x,
                None => {
                    return Err(crate::errors::ErrorKind::CacheCorrupt);
                },
            };
            cred = credp.0;
            entries = tab.0;
            rend = tab.1;
        },
        None => match expect_tok(&v, r1, "\"track_durations\"") {
            Some(k1) => {
                let c1 = match expect_tok(&v, k1, ":") {
                    Some(x) => x,
                    None => {
                        return Err(crate::errors::ErrorKind::CacheCorrupt);
                    },
                };
                let tab = match parse_table(&v, c1) {
                    Some(x) => x,
                    None => {
                        return Err(crate::errors::ErrorKind::CacheCorrupt);
                    },
                };
                let c2 = match expect_tok(&v, tab.1, ",") {
                    Some(x) => x,
                    None => {
                        return Err(crate::errors::ErrorKind::CacheCorrupt);
                    },
                };
                let k2 = match expect_tok(&v, c2, "\"spotify_access_token\"") {
                    Some(x) => x,
                    None => {
                        return Err(crate::errors::ErrorKind::CacheCorrupt);
                    },
                };
                let c3 = match expect_tok(&v, k2, ":") {
                    Some(x) => x,
                    None => {
                        return Err(crate::errors::ErrorKind::CacheCorrupt);
                    },
                };
                let credp = match parse_cred(&v, c3) {
                    Some(x) => x,
                    None => {
                        return Err(crate::errors::ErrorKind::CacheCorrupt);
                    },
                };
                cred = credp.0;
                entries = tab.0;
                rend = credp.1;
            },
            None => {
                return Err(crate::errors::ErrorKind::CacheCorrupt);
            },
        },
    }
    let r3 = match expect_tok(&v, rend, "}") {
        Some(x) => x,
        None => {
            return Err(crate::errors::ErrorKind::CacheCorrupt);
        },
    };
    let e = skip_ws(&v, r3);
    if e != v.len() {
        return Err(crate::errors::ErrorKind::CacheCorrupt);
    }
    if !keys_distinct(&entries) {
        return Err(crate::errors::ErrorKind::CacheCorrupt);
    }
    let c = crate::cache::Cache { spotify_access_token: cred, track_durations: entries };
    proof {
        assert(c@.durations =~= c.track_durations@.map_values(
            |p: (String, u64)| (p.0@, p.1),
        ));
        assert(sp_cache(s@) == Some(c@));
    }
    Ok(c)
}

// ---------------------------------------------------------------------------
// Round trip: parsing an encoding yields the encoded value.
// ---------------------------------------------------------------------------

proof fn lemma_sp_lit_of(lit: Seq<char>, rest: Seq<char>)
    ensures
        sp_lit(lit + rest, lit) == Some(rest),
{
    assert((lit + rest).take(lit.len() as int) =~= lit);
    assert((lit + rest).skip(lit.len() as int) =~= rest);
}

proof fn lemma_sp_string_of(xs: Seq<char>, rest: Seq<char>)
    ensures
        sp_string_body(esc_str(xs) + seq!['"'] + rest) == Some((xs, rest)),
    decreases xs.len(),
{
    let s = esc_str(xs) + seq!['"'] + rest;
    if xs.len() == 0 {
        assert(esc_str(xs) =~= Seq::<char>::empty());
        assert(s =~= seq!['"'] + rest);
        assert(s[0] == '"');
        assert(s.drop_first() =~= rest);
        assert(sp_string_body(s) == Some((Seq::<char>::empty(), rest)));
        assert(Seq::<char>::empty() =~= xs);
    } else {
        let c = xs[0];
        let t = xs.drop_first();
        lemma_sp_string_of(t, rest);
        let tail = esc_str(t) + seq!['"'] + rest;
        assert(s =~= esc_char(c) + tail);
        if c == '"' || c == '\\' {
            assert(s =~= seq!['\\', c] + tail);
            assert(s[0] == '\\');
            assert(s.len() >= 2);
            assert(s[1] == c);
            assert(unesc_char(c) == Some(c));
            assert(s.skip(2) =~= tail);
            assert(sp_string_body(s) == Some((seq![c] + t, rest)));
        } else {
            assert(s =~= seq![c] + tail);
            assert(s[0] == c);
            assert(s.drop_first() =~= tail);
            assert(sp_string_body(s) == Some((seq![c] + t, rest)));
        }
        assert(seq![c] + t =~= xs);
    }
}

proof fn lemma_sp_digits_concat(a: Seq<char>, rest: Seq<char>, acc: int)
    requires
        crate::numbers::all_digits(a),
    ensures
        sp_digits(a + rest, acc) == sp_digits(rest, sp_digits(a, acc).0),
    decreases a.len(),
{
    if a.len() == 0 {
        assert(a + rest =~= rest);
    } else {
        assert((a + rest)[0] == a[0]);
        assert(is_digit(a[0]));
        assert((a + rest).drop_first() =~= a.drop_first() + rest);
        assert(crate::numbers::all_digits(a.drop_first())) by {
            assert(forall|i: int|
                0 <= i < a.len() - 1 ==> a.drop_first()[i] == a[i + 1]);
        }
        lemma_sp_digits_concat(a.drop_first(), rest, acc * 10 + digit_val(a[0]));
    }
}

proof fn lemma_sp_digits_push(a: Seq<char>, c: char, acc: int)
    requires
        crate::numbers::all_digits(a),
        is_digit(c),
    ensures
        sp_digits(a.push(c), acc).0 == sp_digits(a, acc).0 * 10 + digit_val(c),
    decreases a.len(),
{
    reveal_with_fuel(sp_digits, 3);
    if a.len() == 0 {
        assert(a.push(c)[0] == c);
        assert(a.push(c).drop_first() =~= Seq::<char>::empty());
    } else {
        assert(a.push(c)[0] == a[0]);
        assert(a.push(c).drop_first() =~= a.drop_first().push(c));
        assert(crate::numbers::all_digits(a.drop_first())) by {
            assert(forall|i: int|
                0 <= i < a.len() - 1 ==> a.drop_first()[i] == a[i + 1]);
        }
        lemma_sp_digits_push(a.drop_first(), c, acc * 10 + digit_val(a[0]));
    }
}

proof fn lemma_sp_digits_dec_val(a: Seq<char>)
    requires
        crate::numbers::all_digits(a),
    ensures
        sp_digits(a, 0).0 == dec_val(a),
    decreases a.len(),
{
    if a.len() > 0 {
        let b = a.drop_last();
        let d = a.last();
        assert(crate::numbers::all_digits(b)) by {
            assert(forall|i: int| 0 <= i < a.len() - 1 ==> b[i] == a[i]);
        }
        lemma_sp_digits_dec_val(b);
        assert(b.push(d) =~= a);
        lemma_sp_digits_push(b, d, 0);
    }
}

proof fn lemma_sp_number_of(n: int, rest: Seq<char>)
    requires
        0 <= n <= u64::MAX,
        rest.len() == 0 || !is_digit(rest[0]),
    ensures
        sp_number(dec_str_of(n) + rest) == Some((n as u64, rest)),
{
    crate::numbers::lemma_dec_str_of_val(n);
    let a = dec_str_of(n);
    let s = a + rest;
    assert(s[0] == a[0]);
    assert(is_digit(a[0]));
    lemma_sp_digits_concat(a, rest, 0);
    lemma_sp_digits_dec_val(a);
    assert(sp_digits(rest, n) == (n, rest));
    assert(sp_digits(s, 0).0 == n);
}

proof fn lemma_sp_pair_of(key: Seq<char>, val: u64, rest: Seq<char>)
    requires
        rest.len() > 0,
        !is_digit(rest[0]),
    ensures
        sp_pair(enc_pair((key, val)) + rest) == Some(((key, val), rest)),
{
    reveal_strlit(":");
    let s = enc_pair((key, val)) + rest;
    let r1 = seq![':'] + (dec_str_of(val as int) + rest);
    assert(s =~= seq!['"'] + (esc_str(key) + seq!['"'] + r1));
    assert(s[0] == '"');
    assert(sp_ws(s) == s);
    assert(s.drop_first() =~= esc_str(key) + seq!['"'] + r1);
    lemma_sp_string_of(key, r1);
    assert(r1[0] == ':');
    assert(sp_ws(r1) == r1);
    assert(r1 =~= ":"@ + (dec_str_of(val as int) + rest));
    lemma_sp_lit_of(":"@, dec_str_of(val as int) + rest);
    let r2 = dec_str_of(val as int) + rest;
    crate::numbers::lemma_dec_str_of_val(val as int);
    assert(r2[0] == dec_str_of(val as int)[0]);
    assert(is_digit(r2[0]));
    assert(sp_ws(r2) == r2);
    lemma_sp_number_of(val as int, rest);
}

proof fn lemma_sp_pairs_rest_of(entries: Seq<(Seq<char>, u64)>, rest: Seq<char>)
    requires
        rest.len() > 0,
        rest[0] == '}',
    ensures
        sp_pairs_rest(enc_rest(entries) + rest) == Some((entries, rest)),
    decreases entries.len(),
{
    let s = enc_rest(entries) + rest;
    if entries.len() == 0 {
        assert(s =~= rest);
        assert(sp_ws(s) == s);
        assert(Seq::<(Seq<char>, u64)>::empty() =~= entries);
    } else {
        let p = entries[0];
        let t = entries.drop_first();
        let tail = enc_rest(t) + rest;
        assert(s =~= seq![','] + (enc_pair(p) + tail));
        assert(s[0] == ',');
        assert(sp_ws(s) == s);
        assert(s.drop_first() =~= enc_pair(p) + tail);
        if t.len() == 0 {
            assert(tail =~= rest);
            assert(!is_digit(tail[0]));
        } else {
            assert(tail[0] == ',');
            assert(!is_digit(tail[0]));
        }
        lemma_sp_pair_of(p.0, p.1, tail);
        assert(sp_pair(s.drop_first()) == Some(((p.0, p.1), tail)));
        assert((p.0, p.1) == p);
        lemma_sp_pairs_rest_of(t, rest);
        assert(seq![p] + t =~= entries);
    }
}

proof fn lemma_sp_pairs_of(entries: Seq<(Seq<char>, u64)>, rest: Seq<char>)
    requires
        rest.len() > 0,
        rest[0] == '}',
    ensures
        sp_pairs(enc_pairs(entries) + rest) == Some((entries, rest)),
{
    let s = enc_pairs(entries) + rest;
    if entries.len() == 0 {
        assert(s =~= rest);
        assert(sp_ws(s) == s);
        assert(Seq::<(Seq<char>, u64)>::empty() =~= entries);
    } else {
        let p = entries[0];
        let t = entries.drop_first();
        let tail = enc_rest(t) + rest;
        assert(s =~= enc_pair(p) + tail);
        assert(s =~= seq!['"'] + (esc_str(p.0) + seq!['"'] + (seq![':'] + (dec_str_of(
            p.1 as int,
        ) + tail))));
        assert(s[0] == '"');
        assert(sp_ws(s) == s);
        if t.len() == 0 {
            assert(tail =~= rest);
            assert(!is_digit(tail[0]));
        } else {
            assert(tail[0] == ',');
            assert(!is_digit(tail[0]));
        }
        lemma_sp_pair_of(p.0, p.1, tail);
        assert(sp_pair(s) == Some(((p.0, p.1), tail)));
        assert((p.0, p.1) == p);
        lemma_sp_pairs_rest_of(t, rest);
        assert(seq![p] + t =~= entries);
    }
}

/// Cache round trip: a cache with unique keys, rendered to its durable form
/// and parsed back, yields exactly itself — including an absent credential
/// and an empty duration table.
pub proof fn lemma_cache_codec_round_trip(m: CacheModel)
    requires
        CacheModel::keys_unique(m.durations),
    ensures
        sp_cache(enc_cache(m)) == Some(m),
{
    reveal_strlit("{");
    reveal_strlit("}");
    reveal_strlit(":");
    reveal_strlit(",");
    reveal_strlit("null");
    reveal_strlit("\"spotify_access_token\"");
    reveal_strlit("\"track_durations\"");
    let k1 = "\"spotify_access_token\""@;
    let k2 = "\"track_durations\""@;
    let e_cred = enc_cred(m.credential);
    let e_pairs = enc_pairs(m.durations);
    let sfx8 = seq!['}'];
    let sfx7 = seq!['}'] + sfx8;
    let sfx6 = e_pairs + sfx7;
    let sfx5 = seq!['{'] + sfx6;
    let sfx4 = seq![':'] + sfx5;
    let sfx3 = k2 + sfx4;
    let sfx2 = seq![','] + sfx3;
    let sfx1 = e_cred + sfx2;
    let sfx0 = seq![':'] + sfx1;
    let r1v = k1 + sfx0;
    let s = enc_cache(m);
    assert(s =~= "{"@ + r1v);
    assert(s[0] == '{');
    assert(sp_ws(s) == s);
    lemma_sp_lit_of("{"@, r1v);
    assert(sp_tok(s, "{"@) == Some(r1v));
    assert(r1v[0] == '"');
    assert(sp_ws(r1v) == r1v);
    lemma_sp_lit_of(k1, sfx0);
    assert(sp_tok(r1v, k1) == Some(sfx0));
    assert(sfx0[0] == ':');
    assert(sp_ws(sfx0) == sfx0);
    assert(sfx0 =~= ":"@ + sfx1);
    lemma_sp_lit_of(":"@, sfx1);
    assert(sp_tok(sfx0, ":"@) == Some(sfx1));
    match m.credential {
        None => {
            assert(sfx1 =~= "null"@ + sfx2);
            assert(sfx1[0] == 'n');
            assert(sp_ws(sfx1) == sfx1);
            lemma_sp_lit_of("null"@, sfx2);
            assert(sp_cred(sfx1) == Some((None::<Seq<char>>, sfx2)));
        },
        Some(xs) => {
            assert(sfx1 =~= seq!['"'] + (esc_str(xs) + seq!['"'] + sfx2));
            assert(sfx1[0] == '"');
            assert(sp_ws(sfx1) == sfx1);
            assert(sp_lit(sfx1, "null"@) is None) by {
                if sp_lit(sfx1, "null"@) is Some {
                    assert(sfx1.take(4)[0] == sfx1[0]);
                }
            }
            assert(sfx1.drop_first() =~= esc_str(xs) + seq!['"'] + sfx2);
            lemma_sp_string_of(xs, sfx2);
            assert(sp_cred(sfx1) == Some((Some(xs), sfx2)));
        },
    }
    assert(sfx2[0] == ',');
    assert(sp_ws(sfx2) == sfx2);
    assert(sfx2 =~= ","@ + sfx3);
    lemma_sp_lit_of(","@, sfx3);
    assert(sp_tok(sfx2, ","@) == Some(sfx3));
    assert(sfx3[0] == '"');
    assert(sp_ws(sfx3) == sfx3);
    lemma_sp_lit_of(k2, sfx4);
    assert(sp_tok(sfx3, k2) == Some(sfx4));
    assert(sfx4[0] == ':');
    assert(sp_ws(sfx4) == sfx4);
    assert(sfx4 =~= ":"@ + sfx5);
    lemma_sp_lit_of(":"@, sfx5);
    assert(sp_tok(sfx4, ":"@) == Some(sfx5));
    assert(sfx5[0] == '{');
    assert(sp_ws(sfx5) == sfx5);
    assert(sfx5 =~= "{"@ + sfx6);
    lemma_sp_lit_of("{"@, sfx6);
    assert(sp_tok(sfx5, "{"@) == Some(sfx6));
    assert(sfx7[0] == '}');
    lemma_sp_pairs_of(m.durations, sfx7);
    assert(sp_pairs(sfx6) == Some((m.durations, sfx7)));
    assert(sp_ws(sfx7) == sfx7);
    assert(sfx7 =~= "}"@ + sfx8);
    lemma_sp_lit_of("}"@, sfx8);
    assert(sp_table(sfx5) == Some((m.durations, sfx8)));
    assert(sp_fields(r1v) == Some(((m.credential, m.durations), sfx8)));
    assert(sfx8[0] == '}');
    assert(sp_ws(sfx8) == sfx8);
    assert(sfx8 =~= "}"@ + Seq::<char>::empty());
    lemma_sp_lit_of("}"@, Seq::empty());
    assert(sp_tok(sfx8, "}"@) == Some(Seq::<char>::empty()));
    assert(sp_ws(Seq::<char>::empty()).len() == 0);
    assert(sp_cache(s) == Some(CacheModel { credential: m.credential, durations: m.durations }));
    assert(CacheModel { credential: m.credential, durations: m.durations } =~~= m);
}

} // verus!
