//! Character-level pieces of the JSON text the library reads and writes:
//! quoted strings with escaping, unsigned decimal numbers, the two boolean
//! words, `null`, and fixed literals.
//!
//! Each piece exists three times: a spec serializer over `Seq<char>`, a spec
//! parser (consuming a prefix and handing back the remainder), and exec code
//! proved equal to them.  The round-trip lemmas show that each parser
//! inverts its serializer, which the registry codec builds on.

use vstd::prelude::*;

verus! {

/// Relies on String::push: appends exactly one character.
#[verifier::external_body]
pub fn push_char(s: &mut String, c: char)
    ensures
        final(s)@ == old(s)@.push(c),
{
    s.push(c);
}

/// The characters of a string slice, in order.
pub fn str_to_chars(s: &str) -> (r: Vec<char>)
    ensures
        r@ == s@,
{
    let n = s.unicode_len();
    let mut out: Vec<char> = Vec::new();
    let mut i: usize = 0;
    while i < n
        invariant
            n == s@.len(),
            i <= n,
            out@ =~= s@.take(i as int),
        decreases n - i,
    {
        out.push(s.get_char(i));
        proof {
            assert(out@ =~= s@.take(i + 1 as int));
        }
        i = i + 1;
    }
    proof {
        assert(s@.take(n as int) =~= s@);
    }
    out
}

/// The string holding the given characters, in order.
pub fn chars_to_string(v: &Vec<char>) -> (r: String)
    ensures
        r@ == v@,
{
    let mut out = String::new();
    let n = v.len();
    let mut i: usize = 0;
    while i < n
        invariant
            n == v@.len(),
            i <= n,
            out@ =~= v@.take(i as int),
        decreases n - i,
    {
        push_char(&mut out, v[i]);
        proof {
            assert(out@ =~= v@.take(i + 1 as int));
        }
        i = i + 1;
    }
    proof {
        assert(v@.take(n as int) =~= v@);
    }
    out
}

/// Append every character of a string slice to a character vector.
pub fn push_str_chars(out: &mut Vec<char>, s: &str)
    ensures
        final(out)@ == old(out)@ + s@,
{
    let n = s.unicode_len();
    let mut i: usize = 0;
    while i < n
        invariant
            n == s@.len(),
            i <= n,
            out@ =~= old(out)@ + s@.take(i as int),
        decreases n - i,
    {
        out.push(s.get_char(i));
        proof {
            assert(out@ =~= old(out)@ + s@.take(i + 1 as int));
        }
        i = i + 1;
    }
    proof {
        assert(s@.take(n as int) =~= s@);
    }
}

// ---------------------------------------------------------------------------
// Strings with escaping.
// ---------------------------------------------------------------------------

/// How one character is written inside a quoted string: quote and backslash
/// get a backslash in front, everything else stands as it is.
pub open spec fn spec_esc_char(c: char) -> Seq<char> {
    if c == '"' || c == '\\' {
        seq!['\\', c]
    } else {
        seq![c]
    }
}

/// A string's characters with the escaping applied.
pub open spec fn spec_escape(s: Seq<char>) -> Seq<char>
    decreases s.len(),
{
    if s.len() == 0 {
        Seq::<char>::empty()
    } else {
        spec_esc_char(s[0]) + spec_escape(s.drop_first())
    }
}

/// Escaping distributes over concatenation.
pub proof fn lemma_escape_append(a: Seq<char>, b: Seq<char>)
    ensures
        spec_escape(a + b) == spec_escape(a) + spec_escape(b),
    decreases a.len(),
{
    if a.len() == 0 {
        assert(a + b =~= b);
        assert(spec_escape(a) + spec_escape(b) =~= spec_escape(b));
    } else {
        lemma_escape_append(a.drop_first(), b);
        assert((a + b).drop_first() =~= a.drop_first() + b);
        assert(spec_escape(a + b) =~= spec_escape(a) + spec_escape(b));
    }
}

/// A quoted, escaped string.
pub open spec fn spec_ser_string(s: Seq<char>) -> Seq<char> {
    seq!['"'] + spec_escape(s) + seq!['"']
}

/// Parse the inside of a quoted string up to the closing quote.
pub open spec fn spec_parse_string_body(s: Seq<char>) -> Option<(Seq<char>, Seq<char>)>
    decreases s.len(),
{
    if s.len() == 0 {
        None
    } else if s[0] == '"' {
        Some((Seq::<char>::empty(), s.drop_first()))
    } else if s[0] == '\\' {
        if s.len() < 2 {
            None
        } else {
            match spec_parse_string_body(s.skip(2)) {
                Some((t, rest)) => Some((seq![s[1]] + t, rest)),
                None => None,
            }
        }
    } else {
        match spec_parse_string_body(s.drop_first()) {
            Some((t, rest)) => Some((seq![s[0]] + t, rest)),
            None => None,
        }
    }
}

/// Parse a quoted string.
pub open spec fn spec_parse_string(s: Seq<char>) -> Option<(Seq<char>, Seq<char>)> {
    if s.len() > 0 && s[0] == '"' {
        spec_parse_string_body(s.drop_first())
    } else {
        None
    }
}

/// The string parser inverts the string serializer.
pub proof fn lemma_string_body_roundtrip(s: Seq<char>, rest: Seq<char>)
    ensures
        spec_parse_string_body(spec_escape(s) + seq!['"'] + rest) == Some((s, rest)),
    decreases s.len(),
{
    let t = spec_escape(s) + seq!['"'] + rest;
    if s.len() == 0 {
        assert(t =~= seq!['"'] + rest);
        assert(t.drop_first() =~= rest);
    } else {
        lemma_string_body_roundtrip(s.drop_first(), rest);
        if s[0] == '"' || s[0] == '\\' {
            assert(t[0] == '\\');
            assert(t[1] == s[0]);
            assert(t.skip(2) =~= spec_escape(s.drop_first()) + seq!['"'] + rest);
            assert(seq![t[1]] + s.drop_first() =~= s);
        } else {
            assert(t[0] == s[0]);
            assert(t.drop_first() =~= spec_escape(s.drop_first()) + seq!['"'] + rest);
            assert(seq![t[0]] + s.drop_first() =~= s);
        }
    }
}

/// The quoted form round-trips.
pub proof fn lemma_string_roundtrip(s: Seq<char>, rest: Seq<char>)
    ensures
        spec_parse_string(spec_ser_string(s) + rest) == Some((s, rest)),
{
    let t = spec_ser_string(s) + rest;
    assert(t[0] == '"');
    assert(t.drop_first() =~= spec_escape(s) + seq!['"'] + rest);
    lemma_string_body_roundtrip(s, rest);
}

/// Write a string quoted and escaped.
pub fn ser_string(out: &mut Vec<char>, s: &str)
    ensures
        final(out)@ == old(out)@ + spec_ser_string(s@),
{
    out.push('"');
    let n = s.unicode_len();
    let mut i: usize = 0;
    while i < n
        invariant
            n == s@.len(),
            i <= n,
            out@ =~= old(out)@ + seq!['"'] + spec_escape(s@.take(i as int)),
        decreases n - i,
    {
        let c = s.get_char(i);
        if c == '"' || c == '\\' {
            out.push('\\');
            out.push(c);
        } else {
            out.push(c);
        }
        proof {
            let one = seq![s@[i as int]];
            assert(s@.take(i + 1 as int) =~= s@.take(i as int) + one);
            lemma_escape_append(s@.take(i as int), one);
            assert(one.drop_first() =~= Seq::<char>::empty());
            assert(spec_escape(Seq::<char>::empty()) =~= Seq::<char>::empty());
            assert(one[0] == s@[i as int]);
            assert(spec_escape(one) =~= spec_esc_char(s@[i as int]));
            assert(out@ =~= old(out)@ + seq!['"'] + spec_escape(s@.take(i + 1 as int)));
        }
        i = i + 1;
    }
    out.push('"');
    proof {
        assert(s@.take(n as int) =~= s@);
        assert(final(out)@ =~= old(out)@ + spec_ser_string(s@));
    }
}

/// Parse a quoted string starting at `i`; on success the string's characters
/// and the position after the closing quote.
pub fn parse_string_at(v: &Vec<char>, i: usize) -> (r: Option<(String, usize)>)
    requires
        i <= v@.len(),
    ensures
        match r {
            Some((s, j)) => {
                &&& i <= j <= v@.len()
                &&& spec_parse_string(v@.skip(i as int)) == Some((s@, v@.skip(j as int)))
            },
            None => spec_parse_string(v@.skip(i as int)) is None,
        },
{
    let n = v.len();
    if i >= n || v[i] != '"' {
        proof {
            if i < n {
                assert(v@.skip(i as int)[0] == v@[i as int]);
            }
        }
        return None;
    }
    proof {
        assert(v@.skip(i as int)[0] == '"');
        assert(v@.skip(i as int).drop_first() =~= v@.skip(i + 1 as int));
    }
    let mut j = i + 1;
    let mut out = String::new();
    loop
        invariant
            i + 1 <= j <= n,
            n == v@.len(),
            i < n,
            v@.skip(i as int)[0] == '"',
            v@.skip(i as int).drop_first() == v@.skip(i + 1 as int),
            match spec_parse_string_body(v@.skip(j as int)) {
                Some((t, rest)) => spec_parse_string_body(v@.skip(i + 1 as int)) == Some(
                    (out@ + t, rest),
                ),
                None => spec_parse_string_body(v@.skip(i + 1 as int)) is None,
            },
        decreases n - j,
    {
        if j >= n {
            proof {
                assert(v@.skip(j as int).len() == 0);
            }
            return None;
        }
        let c = v[j];
        if c == '"' {
            proof {
                assert(v@.skip(j as int)[0] == '"');
                assert(v@.skip(j as int).drop_first() =~= v@.skip(j + 1 as int));
                assert(out@ + Seq::<char>::empty() =~= out@);
            }
            return Some((out, j + 1));
        } else if c == '\\' {
            if j + 1 >= n {
                proof {
                    assert(v@.skip(j as int).len() < 2);
                }
                return None;
            }
            let d = v[j + 1];
            let ghost prev_out = out@;
            push_char(&mut out, d);
            proof {
                let suf = v@.skip(j as int);
                assert(suf[0] == '\\');
                assert(suf.len() >= 2);
                assert(suf[1] == d);
                assert(suf.skip(2) =~= v@.skip(j + 2 as int));
                if spec_parse_string_body(v@.skip(j + 2 as int)) is Some {
                    let (t, rest) = spec_parse_string_body(v@.skip(j + 2 as int))->Some_0;
                    assert(prev_out + (seq![d] + t) =~= out@ + t);
                }
            }
            j = j + 2;
        } else {
            let ghost prev_out = out@;
            push_char(&mut out, c);
            proof {
                let suf = v@.skip(j as int);
                assert(suf[0] == c);
                assert(suf.drop_first() =~= v@.skip(j + 1 as int));
                if spec_parse_string_body(v@.skip(j + 1 as int)) is Some {
                    let (t, rest) = spec_parse_string_body(v@.skip(j + 1 as int))->Some_0;
                    assert(prev_out + (seq![c] + t) =~= out@ + t);
                }
            }
            j = j + 1;
        }
    }
}

// ---------------------------------------------------------------------------
// Unsigned decimal numbers.
// ---------------------------------------------------------------------------

/// Whether a character is a decimal digit.
pub open spec fn spec_is_digit(c: char) -> bool {
    c == '0' || c == '1' || c == '2' || c == '3' || c == '4' || c == '5' || c == '6' || c == '7'
        || c == '8' || c == '9'
}

/// The digit character for a value below ten.
pub open spec fn spec_digit_char(d: int) -> char {
    if d == 0 { '0' }
    else if d == 1 { '1' }
    else if d == 2 { '2' }
    else if d == 3 { '3' }
    else if d == 4 { '4' }
    else if d == 5 { '5' }
    else if d == 6 { '6' }
    else if d == 7 { '7' }
    else if d == 8 { '8' }
    else { '9' }
}

/// The value of a digit character.
pub open spec fn spec_digit_val(c: char) -> int {
    if c == '0' { 0 }
    else if c == '1' { 1 }
    else if c == '2' { 2 }
    else if c == '3' { 3 }
    else if c == '4' { 4 }
    else if c == '5' { 5 }
    else if c == '6' { 6 }
    else if c == '7' { 7 }
    else if c == '8' { 8 }
    else if c == '9' { 9 }
    else { 0 }
}

/// The decimal digits of a number, most significant first.
pub open spec fn spec_dec_digits(n: nat) -> Seq<char>
    decreases n,
{
    if n < 10 {
        seq![spec_digit_char(n as int)]
    } else {
        spec_dec_digits(n / 10).push(spec_digit_char((n % 10) as int))
    }
}

/// How many leading digits a sequence has.
pub open spec fn spec_digits_len(s: Seq<char>) -> int
    decreases s.len(),
{
    if s.len() == 0 {
        0
    } else if !spec_is_digit(s[0]) {
        0
    } else {
        1 + spec_digits_len(s.drop_first())
    }
}

/// The value of a digit sequence.
pub open spec fn spec_digits_val(ds: Seq<char>) -> nat
    decreases ds.len(),
{
    if ds.len() == 0 {
        0nat
    } else {
        (spec_digits_val(ds.drop_last()) * 10 + spec_digit_val(ds.last())) as nat
    }
}

/// Parse an unsigned decimal number that must fit in 32 bits.
pub open spec fn spec_parse_u32(s: Seq<char>) -> Option<(u32, Seq<char>)> {
    let n = spec_digits_len(s);
    if n == 0 {
        None
    } else {
        let v = spec_digits_val(s.take(n));
        if v > u32::MAX {
            None
        } else {
            Some((v as u32, s.skip(n)))
        }
    }
}

/// Every character the number serializer writes is a digit.
pub proof fn lemma_dec_digits_are_digits(n: nat)
    ensures
        spec_dec_digits(n).len() >= 1,
        forall|i: int|
            0 <= i < spec_dec_digits(n).len() ==> spec_is_digit(#[trigger] spec_dec_digits(n)[i]),
    decreases n,
{
    if n >= 10 {
        lemma_dec_digits_are_digits(n / 10);
        assert forall|i: int|
            0 <= i < spec_dec_digits(n).len() implies spec_is_digit(
            #[trigger] spec_dec_digits(n)[i],
        ) by {
            if i < spec_dec_digits(n / 10).len() {
                assert(spec_dec_digits(n)[i] == spec_dec_digits(n / 10)[i]);
            }
        }
    }
}

/// The digits of a number read back as that number.
pub proof fn lemma_dec_digits_val(n: nat)
    ensures
        spec_digits_val(spec_dec_digits(n)) == n,
    decreases n,
{
    if n < 10 {
        let ds = spec_dec_digits(n);
        assert(ds.len() == 1);
        assert(ds.drop_last() =~= Seq::<char>::empty());
        assert(spec_digits_val(Seq::<char>::empty()) == 0);
        assert(ds.last() == spec_digit_char(n as int));
        assert(spec_digit_val(ds.last()) == n);
    } else {
        lemma_dec_digits_val(n / 10);
        let ds = spec_dec_digits(n);
        assert(ds.len() == spec_dec_digits(n / 10).len() + 1);
        assert(ds.drop_last() =~= spec_dec_digits(n / 10));
        assert(spec_digit_val(ds.last()) == n % 10);
        assert(n / 10 * 10 + n % 10 == n) by (nonlinear_arith);
    }
}

/// The leading-digit count of an all-digit sequence followed by a non-digit
/// (or nothing) is exactly its length.
pub proof fn lemma_digits_len_exact(ds: Seq<char>, rest: Seq<char>)
    requires
        forall|i: int| 0 <= i < ds.len() ==> spec_is_digit(#[trigger] ds[i]),
        rest.len() == 0 || !spec_is_digit(rest[0]),
    ensures
        spec_digits_len(ds + rest) == ds.len(),
    decreases ds.len(),
{
    if ds.len() == 0 {
        assert(ds + rest =~= rest);
    } else {
        lemma_digits_len_exact(ds.drop_first(), rest);
        assert((ds + rest).drop_first() =~= ds.drop_first() + rest);
    }
}

/// The number parser inverts the number serializer, whenever what follows
/// does not begin with a digit.
pub proof fn lemma_u32_roundtrip(n: u32, rest: Seq<char>)
    requires
        rest.len() == 0 || !spec_is_digit(rest[0]),
    ensures
        spec_parse_u32(spec_dec_digits(n as nat) + rest) == Some((n, rest)),
{
    let ds = spec_dec_digits(n as nat);
    lemma_dec_digits_are_digits(n as nat);
    lemma_digits_len_exact(ds, rest);
    lemma_dec_digits_val(n as nat);
    assert((ds + rest).take(ds.len() as int) =~= ds);
    assert((ds + rest).skip(ds.len() as int) =~= rest);
}

/// A digit-sequence prefix never has a larger value than the whole.
pub proof fn lemma_digits_val_prefix(ds: Seq<char>, m: int)
    requires
        0 <= m <= ds.len(),
        forall|i: int| 0 <= i < ds.len() ==> spec_is_digit(#[trigger] ds[i]),
    ensures
        spec_digits_val(ds.take(m)) <= spec_digits_val(ds),
    decreases ds.len(),
{
    if m < ds.len() {
        assert(ds.drop_last().take(m) =~= ds.take(m));
        lemma_digits_val_prefix(ds.drop_last(), m);
        assert(spec_digits_val(ds) == spec_digits_val(ds.drop_last()) * 10 + spec_digit_val(
            ds.last(),
        ));
        assert(spec_digits_val(ds.drop_last()) * 10 >= spec_digits_val(ds.drop_last())) by (nonlinear_arith)
            requires spec_digits_val(ds.drop_last()) >= 0;
        assert(spec_digit_val(ds.last()) >= 0);
    } else {
        assert(ds.take(m) =~= ds);
    }
}

/// Write a number in decimal.
pub fn ser_u32(out: &mut Vec<char>, n: u32)
    ensures
        final(out)@ == old(out)@ + spec_dec_digits(n as nat),
    decreases n,
{
    if n < 10 {
        out.push(digit_char_of(n));
        proof {
            assert(out@ =~= old(out)@ + spec_dec_digits(n as nat));
        }
    } else {
        ser_u32(out, n / 10);
        out.push(digit_char_of(n % 10));
        proof {
            assert(out@ =~= old(out)@ + spec_dec_digits(n as nat));
        }
    }
}

/// The digit character for a value below ten.
pub fn digit_char_of(d: u32) -> (r: char)
    requires
        d < 10,
    ensures
        r == spec_digit_char(d as int),
{
    match d {
        0 => '0',
        1 => '1',
        2 => '2',
        3 => '3',
        4 => '4',
        5 => '5',
        6 => '6',
        7 => '7',
        8 => '8',
        _ => '9',
    }
}

/// The value of a digit character.
pub fn digit_val_of(c: char) -> (r: u32)
    ensures
        r == spec_digit_val(c),
{
    match c {
        '0' => 0,
        '1' => 1,
        '2' => 2,
        '3' => 3,
        '4' => 4,
        '5' => 5,
        '6' => 6,
        '7' => 7,
        '8' => 8,
        '9' => 9,
        _ => 0,
    }
}

/// Parse an unsigned decimal number at `i`.
pub fn parse_u32_at(v: &Vec<char>, i: usize) -> (r: Option<(u32, usize)>)
    requires
        i <= v@.len(),
    ensures
        match r {
            Some((x, j)) => {
                &&& i <= j <= v@.len()
                &&& spec_parse_u32(v@.skip(i as int)) == Some((x, v@.skip(j as int)))
            },
            None => spec_parse_u32(v@.skip(i as int)) is None,
        },
{
    let n = v.len();
    let ghost suf = v@.skip(i as int);
    let mut j = i;
    let mut val: u64 = 0;
    loop
        invariant
            i <= j <= n,
            n == v@.len(),
            suf == v@.skip(i as int),
            forall|k: int| i <= k < j ==> spec_is_digit(#[trigger] v@[k]),
            val == spec_digits_val(suf.take(j - i)),
            val <= u32::MAX,
        decreases n - j,
    {
        if j >= n || !char_is_digit(v[j]) {
            proof {
                assert forall|k: int| 0 <= k < j - i implies spec_is_digit(#[trigger] suf.take(
                    j - i,
                )[k]) by {
                    assert(suf.take(j - i)[k] == v@[i + k]);
                }
                assert(suf.take(j - i) + suf.skip(j - i) =~= suf);
                if j < n {
                    assert(suf.skip(j - i)[0] == v@[j as int]);
                }
                lemma_digits_len_exact(suf.take(j - i), suf.skip(j - i));
                assert(spec_digits_len(suf) == j - i);
            }
            if j == i {
                return None;
            }
            proof {
                assert(suf.skip(j - i) =~= v@.skip(j as int));
            }
            return Some((val as u32, j));
        }
        let c = v[j];
        let d: u64 = digit_val_of(c) as u64;
        let newval: u64 = val * 10 + d;
        proof {
            assert(suf.take(j + 1 - i).drop_last() =~= suf.take(j - i));
            assert(suf.take(j + 1 - i).last() == v@[j as int]);
        }
        if newval > 0xffff_ffff {
            proof {
                let ghost m = digits_end(v@, j as int);
                lemma_digits_run(v@, i as int, j + 1, m);
                lemma_digits_val_prefix(suf.take(m - i), j + 1 - i);
                assert(suf.take(m - i).take(j + 1 - i) =~= suf.take(j + 1 - i));
                assert(suf.take(m - i) + suf.skip(m - i) =~= suf);
                lemma_digits_len_exact(suf.take(m - i), suf.skip(m - i));
                assert(spec_digits_len(suf) == m - i);
                assert(spec_digits_val(suf.take(m - i)) >= newval);
            }
            return None;
        }
        val = newval;
        j = j + 1;
    }
}

/// The position of the first non-digit at or after `j`.
pub open spec fn digits_end(s: Seq<char>, j: int) -> int
    decreases s.len() - j,
{
    if j < 0 || j >= s.len() {
        j
    } else if !spec_is_digit(s[j]) {
        j
    } else {
        digits_end(s, j + 1)
    }
}

/// Facts about the digit run from `j` on: it ends at `digits_end`, every
/// character before the end is a digit, and what follows is not a digit.
pub proof fn lemma_digits_run(s: Seq<char>, i: int, j: int, m: int)
    requires
        0 <= i <= j <= s.len(),
        forall|k: int| i <= k < j ==> spec_is_digit(#[trigger] s[k]),
        m == digits_end(s, j),
    ensures
        j <= m <= s.len(),
        forall|k: int| i <= k < m ==> spec_is_digit(#[trigger] s[k]),
        m == s.len() || !spec_is_digit(s[m]),
    decreases s.len() - j,
{
    if j < s.len() && spec_is_digit(s[j]) {
        lemma_digits_run(s, i, j + 1, m);
    }
}

/// Whether a character is a decimal digit.
pub fn char_is_digit(c: char) -> (r: bool)
    ensures
        r == spec_is_digit(c),
{
    match c {
        '0' | '1' | '2' | '3' | '4' | '5' | '6' | '7' | '8' | '9' => true,
        _ => false,
    }
}

// ---------------------------------------------------------------------------
// Fixed literals, booleans, null.
// ---------------------------------------------------------------------------

/// Consume a fixed literal.
pub open spec fn spec_parse_lit(s: Seq<char>, lit: Seq<char>) -> Option<Seq<char>> {
    if s.len() >= lit.len() && s.take(lit.len() as int) == lit {
        Some(s.skip(lit.len() as int))
    } else {
        None
    }
}

/// A literal consumes itself.
pub proof fn lemma_parse_lit_self(lit: Seq<char>, rest: Seq<char>)
    ensures
        spec_parse_lit(lit + rest, lit) == Some(rest),
{
    assert((lit + rest).take(lit.len() as int) =~= lit);
    assert((lit + rest).skip(lit.len() as int) =~= rest);
}

/// Match a fixed literal at `i`; on success the position after it.
pub fn parse_lit_at(v: &Vec<char>, i: usize, lit: &str) -> (r: Option<usize>)
    requires
        i <= v@.len(),
    ensures
        match r {
            Some(j) => {
                &&& i <= j <= v@.len()
                &&& spec_parse_lit(v@.skip(i as int), lit@) == Some(v@.skip(j as int))
            },
            None => spec_parse_lit(v@.skip(i as int), lit@) is None,
        },
{
    let n = v.len();
    let m = lit.unicode_len();
    if n - i < m {
        return None;
    }
    let ghost suf = v@.skip(i as int);
    let mut k: usize = 0;
    while k < m
        invariant
            k <= m,
            m == lit@.len(),
            i + m <= n,
            n == v@.len(),
            suf == v@.skip(i as int),
            forall|t: int| 0 <= t < k ==> suf[t] == lit@[t],
        decreases m - k,
    {
        if v[i + k] != lit.get_char(k) {
            proof {
                assert(suf.take(lit@.len() as int)[k as int] != lit@[k as int]);
            }
            return None;
        }
        proof {
            assert(suf[k as int] == v@[i + k]);
        }
        k = k + 1;
    }
    proof {
        assert(suf.take(lit@.len() as int) =~= lit@);
        assert(suf.skip(lit@.len() as int) =~= v@.skip(i + m as int));
    }
    Some(i + m)
}

/// The word for a boolean.
pub open spec fn spec_ser_bool(b: bool) -> Seq<char> {
    if b {
        "true"@
    } else {
        "false"@
    }
}

/// Parse a boolean word.
pub open spec fn spec_parse_bool(s: Seq<char>) -> Option<(bool, Seq<char>)> {
    match spec_parse_lit(s, "true"@) {
        Some(rest) => Some((true, rest)),
        None => match spec_parse_lit(s, "false"@) {
            Some(rest) => Some((false, rest)),
            None => None,
        },
    }
}

/// The boolean parser inverts the boolean serializer.
pub proof fn lemma_bool_roundtrip(b: bool, rest: Seq<char>)
    ensures
        spec_parse_bool(spec_ser_bool(b) + rest) == Some((b, rest)),
{
    reveal_strlit("true");
    reveal_strlit("false");
    lemma_parse_lit_self(spec_ser_bool(b), rest);
    if !b {
        let t = spec_ser_bool(b) + rest;
        if t.len() >= 4 && t.take(4) == "true"@ {
            assert(t[0] == 't');
            assert(t[0] == 'f');
        }
    }
}

/// Write a boolean word.
pub fn ser_bool(out: &mut Vec<char>, b: bool)
    ensures
        final(out)@ == old(out)@ + spec_ser_bool(b),
{
    if b {
        push_str_chars(out, "true");
    } else {
        push_str_chars(out, "false");
    }
}

/// Parse a boolean word at `i`.
pub fn parse_bool_at(v: &Vec<char>, i: usize) -> (r: Option<(bool, usize)>)
    requires
        i <= v@.len(),
    ensures
        match r {
            Some((b, j)) => {
                &&& i <= j <= v@.len()
                &&& spec_parse_bool(v@.skip(i as int)) == Some((b, v@.skip(j as int)))
            },
            None => spec_parse_bool(v@.skip(i as int)) is None,
        },
{
    match parse_lit_at(v, i, "true") {
        Some(j) => Some((true, j)),
        None => match parse_lit_at(v, i, "false") {
            Some(j) => Some((false, j)),
            None => None,
        },
    }
}

} // verus!
