//! The config file format: a pretty-printed JSON object with the six
//! fields of [`GameConfig`], always in the same order. Writing is exact;
//! reading accepts exactly what writing produces, for any field values.

use vstd::prelude::*;
use vstd::string::*;

use crate::config::GameConfig;
use crate::config::GameConfigView;
use crate::numfmt::char_digit;
use crate::numfmt::decimal_of;
use crate::numfmt::digits_val;
use crate::numfmt::i64_decimal;
use crate::numfmt::is_digit;
use crate::numfmt::is_digit_char;
use crate::numfmt::lemma_pow10_10;
use crate::numfmt::lemma_pow10_mono;
use crate::numfmt::pow10;
use crate::text::append_chars;
use crate::text::chars_to_string;
use crate::text::push_char;
use crate::text::str_to_chars;

verus! {

/// The text could not be read back as a configuration record.
#[derive(Clone, Copy, PartialEq, Eq, Structural, Debug)]
pub struct ParseError;

/// The text before the timeout value.
pub open spec fn lit_timeout() -> Seq<char> {
    "{\n  \"request_timeout_secs\": "@
}

/// The text between the timeout value and the base path.
pub open spec fn lit_base_path() -> Seq<char> {
    ",\n  \"base_path\": \""@
}

/// The text between the base path and the access token.
pub open spec fn lit_access_token() -> Seq<char> {
    "\",\n  \"access_token\": \""@
}

/// The text between the access token and the call sign.
pub open spec fn lit_call_sign() -> Seq<char> {
    "\",\n  \"call_sign\": \""@
}

/// The text between the call sign and the faction.
pub open spec fn lit_faction() -> Seq<char> {
    "\",\n  \"faction\": \""@
}

/// The text between the faction and the headquarters.
pub open spec fn lit_headquarters() -> Seq<char> {
    "\",\n  \"headquarters\": \""@
}

/// The text closing the object.
pub open spec fn lit_close() -> Seq<char> {
    "\"\n}"@
}

/// How one character stands inside a quoted field: a quote or a backslash
/// gets a backslash before it, anything else stands as itself.
pub open spec fn escape_char(c: char) -> Seq<char> {
    if c == '"' {
        seq!['\\', '"']
    } else if c == '\\' {
        seq!['\\', '\\']
    } else {
        seq![c]
    }
}

/// A field's text as it stands between the quotes, every character
/// escaped as needed.
pub open spec fn escape_text(s: Seq<char>) -> Seq<char>
    decreases s.len(),
{
    if s.len() == 0 {
        Seq::empty()
    } else {
        escape_text(s.drop_last()) + escape_char(s.last())
    }
}

/// The exact text a configuration value is written as.
pub open spec fn spec_config_text(c: GameConfigView) -> Seq<char> {
    lit_timeout() + decimal_of(c.request_timeout_secs) + lit_base_path() + escape_text(c.base_path)
        + lit_access_token() + escape_text(c.access_token) + lit_call_sign() + escape_text(
        c.call_sign,
    ) + lit_faction() + escape_text(c.faction) + lit_headquarters() + escape_text(c.headquarters)
        + lit_close()
}

/// Consumes an expected literal at the front of the text.
pub open spec fn spec_expect(s: Seq<char>, l: Seq<char>) -> Option<Seq<char>> {
    if l.len() <= s.len() && s.take(l.len() as int) == l {
        Some(s.skip(l.len() as int))
    } else {
        None
    }
}

/// Consumes a quoted field's content up to the closing quote, undoing the
/// escapes. A backslash before anything but a quote or a second backslash,
/// and text with no closing quote, are refused.
pub open spec fn spec_scan_text(s: Seq<char>) -> Option<(Seq<char>, Seq<char>)>
    decreases s.len(),
{
    if s.len() == 0 {
        None
    } else if s[0] == '"' {
        Some((Seq::empty(), s))
    } else if s[0] == '\\' {
        if s.len() >= 2 && (s[1] == '"' || s[1] == '\\') {
            match spec_scan_text(s.skip(2)) {
                None => None,
                Some(p) => Some((seq![s[1]] + p.0, p.1)),
            }
        } else {
            None
        }
    } else {
        match spec_scan_text(s.skip(1)) {
            None => None,
            Some(p) => Some((seq![s[0]] + p.0, p.1)),
        }
    }
}

/// Splits the text at the end of its leading run of decimal digits.
pub open spec fn spec_take_digits(s: Seq<char>) -> (Seq<char>, Seq<char>)
    decreases s.len(),
{
    if s.len() == 0 || !is_digit(s[0]) {
        (Seq::empty(), s)
    } else {
        let p = spec_take_digits(s.skip(1));
        (seq![s[0]] + p.0, p.1)
    }
}

/// Consumes an unsigned decimal number: at least one digit, no leading
/// zero, at most ten digits.
pub open spec fn spec_parse_mag(s: Seq<char>) -> Option<(int, Seq<char>)> {
    let (ds, r) = spec_take_digits(s);
    if ds.len() == 0 || ds.len() > 10 {
        None
    } else if ds.len() > 1 && ds[0] == '0' {
        None
    } else {
        Some((digits_val(ds), r))
    }
}

/// Consumes a decimal number with an optional leading minus sign.
pub open spec fn spec_parse_int(s: Seq<char>) -> Option<(int, Seq<char>)> {
    if s.len() > 0 && s[0] == '-' {
        match spec_parse_mag(s.skip(1)) {
            None => None,
            Some(p) => Some((-p.0, p.1)),
        }
    } else {
        spec_parse_mag(s)
    }
}

/// Reads a whole configuration record: the value of the text, or nothing
/// where the text is not the exact rendering of one.
pub open spec fn spec_parse_config(s: Seq<char>) -> Option<GameConfigView> {
    match spec_expect(s, lit_timeout()) {
        None => None,
        Some(s1) => match spec_parse_int(s1) {
            None => None,
            Some((t, s2)) => if !(i32::MIN <= t <= i32::MAX) {
                None
            } else {
                match spec_expect(s2, lit_base_path()) {
                    None => None,
                    Some(s3) => match spec_scan_text(s3) {
                        None => None,
                        Some((bp, s4)) => match spec_expect(s4, lit_access_token()) {
                            None => None,
                            Some(s5) => match spec_scan_text(s5) {
                                None => None,
                                Some((tok, s6)) => match spec_expect(s6, lit_call_sign()) {
                                    None => None,
                                    Some(s7) => match spec_scan_text(s7) {
                                        None => None,
                                        Some((cs, s8)) => match spec_expect(s8, lit_faction()) {
                                            None => None,
                                            Some(s9) => match spec_scan_text(s9) {
                                                None => None,
                                                Some((fa, s10)) => match spec_expect(
                                                    s10,
                                                    lit_headquarters(),
                                                ) {
                                                    None => None,
                                                    Some(s11) => match spec_scan_text(s11) {
                                                        None => None,
                                                        Some((hq, s12)) => match spec_expect(
                                                            s12,
                                                            lit_close(),
                                                        ) {
                                                            None => None,
                                                            Some(s13) => if s13.len() == 0 {
                                                                Some(
                                                                    GameConfigView {
                                                                        request_timeout_secs: t,
                                                                        base_path: bp,
                                                                        access_token: tok,
                                                                        call_sign: cs,
                                                                        faction: fa,
                                                                        headquarters: hq,
                                                                    },
                                                                )
                                                            } else {
                                                                None
                                                            },
                                                        },
                                                    },
                                                },
                                            },
                                        },
                                    },
                                },
                            },
                        },
                    },
                }
            },
        },
    }
}

/// Appends a field's text between quotes, escaping as it goes.
fn append_escaped(s: &mut String, f: &str)
    ensures
        final(s)@ == old(s)@ + escape_text(f@),
{
    let cs = str_to_chars(f);
    proof {
        assert(f@.take(0) =~= Seq::<char>::empty());
        assert(s@ =~= old(s)@ + escape_text(f@.take(0)));
    }
    let mut i: usize = 0;
    while i < cs.len()
        invariant
            i <= cs@.len(),
            cs@ == f@,
            s@ == old(s)@ + escape_text(f@.take(i as int)),
        decreases cs@.len() - i,
    {
        let c = cs[i];
        if c == '"' || c == '\\' {
            push_char(s, '\\');
        }
        push_char(s, c);
        i = i + 1;
        proof {
            let t = f@.take(i as int);
            assert(t.drop_last() =~= f@.take(i - 1));
            assert(t.last() == f@[i - 1]);
            assert(s@ =~= old(s)@ + escape_text(t));
        }
    }
    proof {
        assert(f@.take(f@.len() as int) =~= f@);
    }
}

/// Writes a configuration record as the config file's text.
pub fn to_json(c: &GameConfig) -> (r: String)
    ensures
        r@ == spec_config_text(c@),
{
    let mut s = String::from_str("{\n  \"request_timeout_secs\": ");
    let ds = i64_decimal(c.request_timeout_secs as i64);
    append_chars(&mut s, &ds);
    s.append(",\n  \"base_path\": \"");
    append_escaped(&mut s, c.base_path.as_str());
    s.append("\",\n  \"access_token\": \"");
    append_escaped(&mut s, c.access_token.as_str());
    s.append("\",\n  \"call_sign\": \"");
    append_escaped(&mut s, c.call_sign.as_str());
    s.append("\",\n  \"faction\": \"");
    append_escaped(&mut s, c.faction.as_str());
    s.append("\",\n  \"headquarters\": \"");
    append_escaped(&mut s, c.headquarters.as_str());
    s.append("\"\n}");
    proof {
        assert(s@ =~= spec_config_text(c@));
    }
    s
}

/// Consuming a literal that the text starts with leaves the remainder.
proof fn lemma_expect_prefix(l: Seq<char>, rest: Seq<char>)
    ensures
        spec_expect(l + rest, l) == Some(rest),
{
    assert((l + rest).take(l.len() as int) =~= l);
    assert((l + rest).skip(l.len() as int) =~= rest);
}

/// The escaped text can also be peeled from the front: the first
/// character's escape, then the escaped remainder.
proof fn lemma_escape_front(s: Seq<char>)
    requires
        s.len() > 0,
    ensures
        escape_text(s) == escape_char(s[0]) + escape_text(s.skip(1)),
    decreases s.len(),
{
    if s.len() == 1 {
        assert(s.drop_last() =~= Seq::<char>::empty());
        assert(s.skip(1) =~= Seq::<char>::empty());
        assert(escape_text(s) =~= escape_char(s[0]) + escape_text(s.skip(1)));
    } else {
        lemma_escape_front(s.drop_last());
        assert(s.drop_last()[0] == s[0]);
        assert(s.skip(1).drop_last() =~= s.drop_last().skip(1));
        assert(s.skip(1).last() == s.last());
        assert(escape_text(s) =~= escape_char(s[0]) + escape_text(s.skip(1)));
    }
}

/// Scanning a field's escaped text followed by a quote undoes the escapes
/// and yields exactly the field.
proof fn lemma_scan_prefix(content: Seq<char>, rest: Seq<char>)
    requires
        rest.len() > 0,
        rest[0] == '"',
    ensures
        spec_scan_text(escape_text(content) + rest) == Some((content, rest)),
    decreases content.len(),
{
    let s = escape_text(content) + rest;
    if content.len() == 0 {
        assert(s =~= rest);
        assert(Seq::<char>::empty() =~= content);
    } else {
        lemma_escape_front(content);
        let c0 = content[0];
        assert(s =~= escape_char(c0) + (escape_text(content.skip(1)) + rest));
        lemma_scan_prefix(content.skip(1), rest);
        if c0 == '"' || c0 == '\\' {
            assert(s[0] == '\\');
            assert(s[1] == c0);
            assert(s.skip(2) =~= escape_text(content.skip(1)) + rest);
            assert(seq![s[1]] + content.skip(1) =~= content);
        } else {
            assert(s[0] == c0);
            assert(s.skip(1) =~= escape_text(content.skip(1)) + rest);
            assert(seq![s[0]] + content.skip(1) =~= content);
        }
    }
}

/// Taking digits out of a digit run followed by a non-digit yields the run.
proof fn lemma_take_digits_prefix(ds: Seq<char>, rest: Seq<char>)
    requires
        forall|i: int| 0 <= i < ds.len() ==> is_digit(#[trigger] ds[i]),
        rest.len() == 0 || !is_digit(rest[0]),
    ensures
        spec_take_digits(ds + rest).0 == ds,
        spec_take_digits(ds + rest).1 == rest,
    decreases ds.len(),
{
    let s = ds + rest;
    if ds.len() == 0 {
        assert(s =~= rest);
    } else {
        assert(s[0] == ds[0]);
        assert(s.skip(1) =~= ds.skip(1) + rest);
        assert(forall|i: int| 0 <= i < ds.skip(1).len() ==> is_digit(#[trigger] ds.skip(1)[i]));
        lemma_take_digits_prefix(ds.skip(1), rest);
        assert(seq![s[0]] + ds.skip(1) =~= ds);
    }
}

/// Reading a written magnitude back, when what follows starts with no
/// digit, yields the magnitude.
proof fn lemma_parse_mag_prefix(n: nat, rest: Seq<char>)
    requires
        n < 10000000000,
        rest.len() == 0 || !is_digit(rest[0]),
    ensures
        spec_parse_mag(crate::numfmt::digits_of(n) + rest) == Some((n as int, rest)),
{
    let ds = crate::numfmt::digits_of(n);
    crate::numfmt::lemma_digits_of_are_digits(n);
    lemma_take_digits_prefix(ds, rest);
    lemma_pow10_10();
    crate::numfmt::lemma_digits_of_len(n, 10);
    crate::numfmt::lemma_digits_of_no_leading_zero(n);
    crate::numfmt::lemma_digits_roundtrip(n);
    if ds.len() > 1 {
        assert(n >= 10);
    }
}

/// Reading a written number back, when what follows starts with no digit,
/// yields the number.
proof fn lemma_parse_int_prefix(t: int, rest: Seq<char>)
    requires
        -10000000000 < t < 10000000000,
        rest.len() > 0,
        !is_digit(rest[0]),
    ensures
        spec_parse_int(decimal_of(t) + rest) == Some((t, rest)),
{
    let s = decimal_of(t) + rest;
    if t < 0 {
        let n = (-t) as nat;
        assert(s[0] == '-');
        assert(s.skip(1) =~= crate::numfmt::digits_of(n) + rest);
        lemma_parse_mag_prefix(n, rest);
    } else {
        let n = t as nat;
        assert(s =~= crate::numfmt::digits_of(n) + rest);
        crate::numfmt::lemma_digits_of_are_digits(n);
        assert(is_digit(s[0]));
        assert(s[0] != '-');
        lemma_parse_mag_prefix(n, rest);
    }
}

/// The round trip of the config file format: reading back the written text
/// of any well-formed configuration value yields that value unchanged.
pub proof fn lemma_config_roundtrip(c: GameConfigView)
    requires
        i32::MIN <= c.request_timeout_secs <= i32::MAX,
    ensures
        spec_parse_config(spec_config_text(c)) == Some(c),
{
    reveal_strlit("{\n  \"request_timeout_secs\": ");
    reveal_strlit(",\n  \"base_path\": \"");
    reveal_strlit("\",\n  \"access_token\": \"");
    reveal_strlit("\",\n  \"call_sign\": \"");
    reveal_strlit("\",\n  \"faction\": \"");
    reveal_strlit("\",\n  \"headquarters\": \"");
    reveal_strlit("\"\n}");
    let s = spec_config_text(c);
    let d = decimal_of(c.request_timeout_secs);
    let r13 = Seq::<char>::empty();
    let r12 = lit_close();
    let r11 = escape_text(c.headquarters) + r12;
    let r10 = lit_headquarters() + r11;
    let r9 = escape_text(c.faction) + r10;
    let r8 = lit_faction() + r9;
    let r7 = escape_text(c.call_sign) + r8;
    let r6 = lit_call_sign() + r7;
    let r5 = escape_text(c.access_token) + r6;
    let r4 = lit_access_token() + r5;
    let r3 = escape_text(c.base_path) + r4;
    let r2 = lit_base_path() + r3;
    let r1 = d + r2;
    assert(s =~= lit_timeout() + r1);
    lemma_expect_prefix(lit_timeout(), r1);
    assert(spec_expect(s, lit_timeout()) == Some(r1));
    assert(r2[0] == ',');
    lemma_parse_int_prefix(c.request_timeout_secs, r2);
    assert(spec_parse_int(r1) == Some((c.request_timeout_secs, r2)));
    lemma_expect_prefix(lit_base_path(), r3);
    assert(r4[0] == '"');
    lemma_scan_prefix(c.base_path, r4);
    assert(spec_scan_text(r3) == Some((c.base_path, r4)));
    lemma_expect_prefix(lit_access_token(), r5);
    assert(r6[0] == '"');
    lemma_scan_prefix(c.access_token, r6);
    lemma_expect_prefix(lit_call_sign(), r7);
    assert(r8[0] == '"');
    lemma_scan_prefix(c.call_sign, r8);
    lemma_expect_prefix(lit_faction(), r9);
    assert(r10[0] == '"');
    lemma_scan_prefix(c.faction, r10);
    lemma_expect_prefix(lit_headquarters(), r11);
    assert(r12[0] == '"');
    lemma_scan_prefix(c.headquarters, r12);
    assert(lit_close() =~= lit_close() + r13);
    lemma_expect_prefix(lit_close(), r13);
    assert(spec_expect(r12, lit_close()) == Some(r13));
    assert(spec_parse_config(s) == Some(
        GameConfigView {
            request_timeout_secs: c.request_timeout_secs,
            base_path: c.base_path,
            access_token: c.access_token,
            call_sign: c.call_sign,
            faction: c.faction,
            headquarters: c.headquarters,
        },
    ));
}

/// Consumes the given literal at position `p`, returning the position
/// right after it.
fn expect_lit(v: &Vec<char>, p: usize, l: &str) -> (r: Option<usize>)
    requires
        p <= v@.len(),
    ensures
        match r {
            Some(q) => {
                &&& p <= q <= v@.len()
                &&& spec_expect(v@.skip(p as int), l@) == Some(v@.skip(q as int))
            },
            None => spec_expect(v@.skip(p as int), l@) is None,
        },
{
    let n = l.unicode_len();
    let len = v.len();
    if len - p < n {
        return None;
    }
    let mut j: usize = 0;
    while j < n
        invariant
            n == l@.len(),
            len == v@.len(),
            p + n <= len,
            j <= n,
            forall|k: int| 0 <= k < j ==> v@[p + k] == l@[k],
        decreases n - j,
    {
        if v[p + j] != l.get_char(j) {
            proof {
                assert(v@.skip(p as int).take(n as int)[j as int] == v@[p + j]);
            }
            return None;
        }
        j = j + 1;
    }
    proof {
        assert(v@.skip(p as int).take(n as int) =~= l@);
        assert(v@.skip(p as int).skip(n as int) =~= v@.skip((p + n) as int));
    }
    Some(p + n)
}

/// Consumes a quoted field's raw content at position `p`, returning it
/// with the position of the closing quote.
fn scan_text(v: &Vec<char>, p: usize) -> (r: Option<(Vec<char>, usize)>)
    requires
        p <= v@.len(),
    ensures
        match r {
            Some(pair) => {
                &&& p <= pair.1 <= v@.len()
                &&& spec_scan_text(v@.skip(p as int)) == Some((pair.0@, v@.skip(pair.1 as int)))
            },
            None => spec_scan_text(v@.skip(p as int)) is None,
        },
    decreases v@.len() - p,
{
    if p == v.len() {
        proof {
            assert(v@.skip(p as int) =~= Seq::<char>::empty());
        }
        return None;
    }
    let c = v[p];
    proof {
        assert(v@.skip(p as int)[0] == c);
    }
    if c == '"' {
        let content: Vec<char> = Vec::new();
        proof {
            assert(spec_scan_text(v@.skip(p as int)) == Some(
                (Seq::<char>::empty(), v@.skip(p as int)),
            ));
        }
        return Some((content, p));
    }
    if c == '\\' {
        if p + 1 >= v.len() {
            proof {
                assert(v@.skip(p as int).len() < 2);
            }
            return None;
        }
        let c2 = v[p + 1];
        proof {
            assert(v@.skip(p as int)[1] == c2);
        }
        if c2 == '"' || c2 == '\\' {
            proof {
                assert(v@.skip(p as int).skip(2) =~= v@.skip(p + 2));
            }
            return match scan_text(v, p + 2) {
                None => None,
                Some((mut content, q)) => {
                    content.insert(0, c2);
                    proof {
                        assert(content@ =~= seq![c2] + content@.skip(1));
                    }
                    Some((content, q))
                },
            };
        }
        return None;
    }
    proof {
        assert(v@.skip(p as int).skip(1) =~= v@.skip(p + 1));
    }
    match scan_text(v, p + 1) {
        None => None,
        Some((mut content, q)) => {
            content.insert(0, c);
            proof {
                assert(content@ =~= seq![c] + content@.skip(1));
            }
            Some((content, q))
        },
    }
}

/// Every character of a consumed digit run is a digit.
proof fn lemma_take_digits_digits(s: Seq<char>)
    ensures
        forall|i: int|
            0 <= i < spec_take_digits(s).0.len() ==> is_digit(#[trigger] spec_take_digits(s).0[i]),
    decreases s.len(),
{
    if s.len() > 0 && is_digit(s[0]) {
        lemma_take_digits_digits(s.skip(1));
        assert forall|i: int| 0 <= i < spec_take_digits(s).0.len() implies is_digit(
            #[trigger] spec_take_digits(s).0[i],
        ) by {
            if i == 0 {
                assert(spec_take_digits(s).0[0] == s[0]);
            } else {
                assert(spec_take_digits(s).0[i] == spec_take_digits(s.skip(1)).0[i - 1]);
            }
        }
    }
}

/// Consumes the leading run of decimal digits at position `p`, returning
/// the position right after it.
fn take_digits(v: &Vec<char>, p: usize) -> (q: usize)
    requires
        p <= v@.len(),
    ensures
        p <= q <= v@.len(),
        spec_take_digits(v@.skip(p as int)).0 == v@.subrange(p as int, q as int),
        spec_take_digits(v@.skip(p as int)).1 == v@.skip(q as int),
    decreases v@.len() - p,
{
    if p == v.len() {
        proof {
            assert(v@.skip(p as int) =~= Seq::<char>::empty());
            assert(v@.subrange(p as int, p as int) =~= Seq::<char>::empty());
        }
        return p;
    }
    let c = v[p];
    proof {
        assert(v@.skip(p as int)[0] == c);
    }
    if !is_digit_char(c) {
        proof {
            assert(v@.subrange(p as int, p as int) =~= Seq::<char>::empty());
        }
        return p;
    }
    proof {
        assert(v@.skip(p as int).skip(1) =~= v@.skip(p + 1));
    }
    let q = take_digits(v, p + 1);
    proof {
        assert(v@.subrange(p as int, q as int) =~= seq![c] + v@.subrange(p + 1, q as int));
    }
    q
}

/// Consumes an unsigned decimal number at position `p`.
fn parse_mag(v: &Vec<char>, p: usize) -> (r: Option<(u64, usize)>)
    requires
        p <= v@.len(),
    ensures
        match r {
            Some(pair) => {
                &&& p <= pair.1 <= v@.len()
                &&& pair.0 < 10000000000
                &&& spec_parse_mag(v@.skip(p as int)) == Some(
                    (pair.0 as int, v@.skip(pair.1 as int)),
                )
            },
            None => spec_parse_mag(v@.skip(p as int)) is None,
        },
{
    let q = take_digits(v, p);
    let ghost ds = v@.subrange(p as int, q as int);
    if q == p {
        return None;
    }
    if q - p > 10 {
        return None;
    }
    if q - p > 1 && v[p] == '0' {
        proof {
            assert(ds[0] == v@[p as int]);
        }
        return None;
    }
    proof {
        lemma_take_digits_digits(v@.skip(p as int));
        assert(forall|i: int| p <= i < q ==> is_digit(#[trigger] v@[i])) by {
            assert forall|i: int| p <= i < q implies is_digit(#[trigger] v@[i]) by {
                assert(v@[i] == ds[i - p]);
                assert(is_digit(ds[i - p]));
            }
        }
        lemma_pow10_10();
    }
    let mut acc: u64 = 0;
    let mut k: usize = p;
    while k < q
        invariant
            p <= k <= q <= v@.len(),
            q - p <= 10,
            ds == v@.subrange(p as int, q as int),
            forall|i: int| p <= i < q ==> is_digit(#[trigger] v@[i]),
            acc as int == digits_val(v@.subrange(p as int, k as int)),
            (acc as int) < pow10((k - p) as nat),
            pow10(10) == 10000000000,
        decreases q - k,
    {
        let d = char_digit(v[k]);
        proof {
            lemma_pow10_mono(((k - p) + 1) as nat, 10);
            assert(pow10(((k - p) + 1) as nat) == 10 * pow10((k - p) as nat));
            let t = v@.subrange(p as int, (k + 1) as int);
            assert(t.drop_last() =~= v@.subrange(p as int, k as int));
            assert(t.last() == v@[k as int]);
        }
        acc = acc * 10 + (d as u64);
        k = k + 1;
    }
    proof {
        assert(v@.subrange(p as int, k as int) =~= ds);
        lemma_pow10_mono((q - p) as nat, 10);
    }
    Some((acc, q))
}

/// Consumes a decimal number, with an optional minus sign, at position `p`.
fn parse_int(v: &Vec<char>, p: usize) -> (r: Option<(i64, usize)>)
    requires
        p <= v@.len(),
    ensures
        match r {
            Some(pair) => {
                &&& p <= pair.1 <= v@.len()
                &&& spec_parse_int(v@.skip(p as int)) == Some(
                    (pair.0 as int, v@.skip(pair.1 as int)),
                )
            },
            None => spec_parse_int(v@.skip(p as int)) is None,
        },
{
    if p < v.len() && v[p] == '-' {
        proof {
            assert(v@.skip(p as int)[0] == '-');
            assert(v@.skip(p as int).skip(1) =~= v@.skip(p + 1));
        }
        match parse_mag(v, p + 1) {
            None => None,
            Some((m, q)) => Some((-(m as i64), q)),
        }
    } else {
        proof {
            if p < v@.len() {
                assert(v@.skip(p as int)[0] == v@[p as int]);
            }
        }
        match parse_mag(v, p) {
            None => None,
            Some((m, q)) => Some((m as i64, q)),
        }
    }
}

/// Reads a configuration record back from the config file's text.
pub fn parse_config(s: &str) -> (r: Result<GameConfig, ParseError>)
    ensures
        match r {
            Ok(c) => spec_parse_config(s@) == Some(c@),
            Err(_) => spec_parse_config(s@) is None,
        },
{
    let v = str_to_chars(s);
    proof {
        assert(v@.skip(0) =~= s@);
    }
    let p1 = match expect_lit(&v, 0, "{\n  \"request_timeout_secs\": ") {
        None => { return Err(ParseError); },
        Some(q) => q,
    };
    let (t, p2) = match parse_int(&v, p1) {
        None => { return Err(ParseError); },
        Some(pair) => pair,
    };
    if t < -2147483648i64 || t > 2147483647i64 {
        return Err(ParseError);
    }
    let p3 = match expect_lit(&v, p2, ",\n  \"base_path\": \"") {
        None => { return Err(ParseError); },
        Some(q) => q,
    };
    let (bp, p4) = match scan_text(&v, p3) {
        None => { return Err(ParseError); },
        Some(pair) => pair,
    };
    let p5 = match expect_lit(&v, p4, "\",\n  \"access_token\": \"") {
        None => { return Err(ParseError); },
        Some(q) => q,
    };
    let (tok, p6) = match scan_text(&v, p5) {
        None => { return Err(ParseError); },
        Some(pair) => pair,
    };
    let p7 = match expect_lit(&v, p6, "\",\n  \"call_sign\": \"") {
        None => { return Err(ParseError); },
        Some(q) => q,
    };
    let (cs, p8) = match scan_text(&v, p7) {
        None => { return Err(ParseError); },
        Some(pair) => pair,
    };
    let p9 = match expect_lit(&v, p8, "\",\n  \"faction\": \"") {
        None => { return Err(ParseError); },
        Some(q) => q,
    };
    let (fa, p10) = match scan_text(&v, p9) {
        None => { return Err(ParseError); },
        Some(pair) => pair,
    };
    let p11 = match expect_lit(&v, p10, "\",\n  \"headquarters\": \"") {
        None => { return Err(ParseError); },
        Some(q) => q,
    };
    let (hq, p12) = match scan_text(&v, p11) {
        None => { return Err(ParseError); },
        Some(pair) => pair,
    };
    let p13 = match expect_lit(&v, p12, "\"\n}") {
        None => { return Err(ParseError); },
        Some(q) => q,
    };
    if p13 != v.len() {
        proof {
            assert(v@.skip(p13 as int).len() > 0);
        }
        return Err(ParseError);
    }
    proof {
        assert(v@.skip(p13 as int) =~= Seq::<char>::empty());
    }
    let c = GameConfig {
        request_timeout_secs: t as i32,
        base_path: chars_to_string(&bp),
        access_token: chars_to_string(&tok),
        call_sign: chars_to_string(&cs),
        faction: chars_to_string(&fa),
        headquarters: chars_to_string(&hq),
    };
    Ok(c)
}

} // verus!
