//! The line protocol spoken with the helper process.  Outbound: the start
//! and cancel commands, single-line JSON handed to the helper as its one
//! argument.  Inbound: each line of the helper's output that parses as a
//! flat JSON object is a status event; any other line is diagnostic and is
//! dropped.
//!
//! The inbound parser accepts any flat object — keys in any order, spacing
//! free, unknown keys ignored, the last occurrence of a repeated key
//! winning.  Numbers are read as hundredths of a percent, saturating, with
//! fractional digits beyond the second truncated; negative numbers read as
//! zero.

use vstd::prelude::*;

use crate::events::EventStatus;
use crate::events::EventStatusView;
use crate::events::StatusEvent;
use crate::events::StatusEventView;
use crate::json::char_is_digit;
use crate::json::chars_to_string;
use crate::json::digit_val_of;
use crate::json::parse_lit_at;
use crate::json::parse_string_at;
use crate::json::push_str_chars;
use crate::json::ser_string;
use crate::json::spec_digit_val;
use crate::json::spec_digits_len;
use crate::json::spec_digits_val;
use crate::json::spec_is_digit;
use crate::json::spec_parse_lit;
use crate::json::spec_parse_string;
use crate::json::spec_ser_string;
use crate::json::str_to_chars;

verus! {

// ---------------------------------------------------------------------------
// Outbound commands.
// ---------------------------------------------------------------------------

/// The start command handed to the helper process.
pub open spec fn spec_start_command(
    url: Seq<char>,
    save_folder: Seq<char>,
    download_id: Seq<char>,
    filename: Seq<char>,
) -> Seq<char> {
    "{\"action\":\"setDownload\",\"url\":"@ + spec_ser_string(url) + ",\"saveFolder\":"@
        + spec_ser_string(save_folder) + ",\"downloadId\":"@ + spec_ser_string(download_id)
        + ",\"filename\":"@ + spec_ser_string(filename) + "}"@
}

/// The cancel command handed to the helper process.
pub open spec fn spec_cancel_command(download_id: Seq<char>) -> Seq<char> {
    "{\"action\":\"cancelDownload\",\"downloadId\":"@ + spec_ser_string(download_id) + "}"@
}

/// Render the start command.
pub fn start_command(url: &String, save_folder: &String, download_id: &String, filename: &String)
    -> (r: String)
    ensures
        r@ == spec_start_command(url@, save_folder@, download_id@, filename@),
{
    let mut out: Vec<char> = Vec::new();
    push_str_chars(&mut out, "{\"action\":\"setDownload\",\"url\":");
    ser_string(&mut out, url.as_str());
    push_str_chars(&mut out, ",\"saveFolder\":");
    ser_string(&mut out, save_folder.as_str());
    push_str_chars(&mut out, ",\"downloadId\":");
    ser_string(&mut out, download_id.as_str());
    push_str_chars(&mut out, ",\"filename\":");
    ser_string(&mut out, filename.as_str());
    push_str_chars(&mut out, "}");
    proof {
        assert(out@ =~= spec_start_command(url@, save_folder@, download_id@, filename@));
    }
    chars_to_string(&out)
}

/// Render the cancel command.
pub fn cancel_command(download_id: &String) -> (r: String)
    ensures
        r@ == spec_cancel_command(download_id@),
{
    let mut out: Vec<char> = Vec::new();
    push_str_chars(&mut out, "{\"action\":\"cancelDownload\",\"downloadId\":");
    ser_string(&mut out, download_id.as_str());
    push_str_chars(&mut out, "}");
    proof {
        assert(out@ =~= spec_cancel_command(download_id@));
    }
    chars_to_string(&out)
}

// ---------------------------------------------------------------------------
// Inbound scalar values.
// ---------------------------------------------------------------------------

/// One value of a flat status object.
pub enum ScalarValue {
    /// A JSON string.
    Text(String),
    /// A JSON number, as hundredths of a percent, saturating.
    Hundredths(u32),
    /// A JSON boolean.
    Flag(bool),
    /// JSON null.
    Null,
}

/// The mathematical value of a `ScalarValue`.
pub ghost enum ScalarValueView {
    Text(Seq<char>),
    Hundredths(u32),
    Flag(bool),
    Null,
}

impl View for ScalarValue {
    type V = ScalarValueView;

    open spec fn view(&self) -> ScalarValueView {
        match self {
            ScalarValue::Text(s) => ScalarValueView::Text(s@),
            ScalarValue::Hundredths(n) => ScalarValueView::Hundredths(*n),
            ScalarValue::Flag(b) => ScalarValueView::Flag(*b),
            ScalarValue::Null => ScalarValueView::Null,
        }
    }
}

/// Whether a character counts as JSON whitespace.
pub open spec fn spec_is_ws(c: char) -> bool {
    c == ' ' || c == '\t' || c == '\n' || c == '\r'
}

/// Drop leading whitespace.
pub open spec fn spec_skip_ws(s: Seq<char>) -> Seq<char>
    decreases s.len(),
{
    if s.len() > 0 && spec_is_ws(s[0]) {
        spec_skip_ws(s.drop_first())
    } else {
        s
    }
}

/// The value of up to the first two digits of a fraction run, in
/// hundredths.
pub open spec fn spec_frac_hundredths(ds: Seq<char>) -> nat {
    if ds.len() == 0 {
        0nat
    } else if ds.len() == 1 {
        (spec_digit_val(ds[0]) * 10) as nat
    } else {
        (spec_digit_val(ds[0]) * 10 + spec_digit_val(ds[1])) as nat
    }
}

/// A whole-plus-fraction value in hundredths, saturating at the largest
/// 32-bit value.
pub open spec fn spec_sat_hundredths(whole: nat, frac: nat) -> u32 {
    if whole * 100 + frac > u32::MAX {
        u32::MAX
    } else {
        (whole * 100 + frac) as u32
    }
}

/// Parse a JSON number as hundredths of a percent.  A leading minus makes
/// the value zero; fractional digits beyond the second are dropped.
pub open spec fn spec_parse_number(s: Seq<char>) -> Option<(u32, Seq<char>)> {
    if s.len() > 0 && s[0] == '-' {
        match spec_parse_number_body(s.drop_first()) {
            Some((_, rest)) => Some((0u32, rest)),
            None => None,
        }
    } else {
        spec_parse_number_body(s)
    }
}

/// Parse digits with an optional fraction, as saturating hundredths.
pub open spec fn spec_parse_number_body(s: Seq<char>) -> Option<(u32, Seq<char>)> {
    let n = spec_digits_len(s);
    if n == 0 {
        None
    } else {
        let whole = spec_digits_val(s.take(n));
        let s2 = s.skip(n);
        if s2.len() > 0 && s2[0] == '.' {
            let s3 = s2.drop_first();
            let m = spec_digits_len(s3);
            if m == 0 {
                None
            } else {
                Some((spec_sat_hundredths(whole, spec_frac_hundredths(s3.take(m))), s3.skip(m)))
            }
        } else {
            Some((spec_sat_hundredths(whole, 0), s2))
        }
    }
}

/// Parse one scalar value: a string, a number, a boolean or null.
pub open spec fn spec_parse_scalar(s: Seq<char>) -> Option<(ScalarValueView, Seq<char>)> {
    if s.len() > 0 && s[0] == '"' {
        match spec_parse_string(s) {
            Some((t, rest)) => Some((ScalarValueView::Text(t), rest)),
            None => None,
        }
    } else if s.len() > 0 && (s[0] == '-' || spec_is_digit(s[0])) {
        match spec_parse_number(s) {
            Some((n, rest)) => Some((ScalarValueView::Hundredths(n), rest)),
            None => None,
        }
    } else {
        match spec_parse_lit(s, "true"@) {
            Some(rest) => Some((ScalarValueView::Flag(true), rest)),
            None => match spec_parse_lit(s, "false"@) {
                Some(rest) => Some((ScalarValueView::Flag(false), rest)),
                None => match spec_parse_lit(s, "null"@) {
                    Some(rest) => Some((ScalarValueView::Null, rest)),
                    None => None,
                },
            },
        }
    }
}

/// Parse one `"key": value` member, whitespace allowed around the colon.
pub open spec fn spec_parse_member(s: Seq<char>) -> Option<
    ((Seq<char>, ScalarValueView), Seq<char>),
> {
    match spec_parse_string(spec_skip_ws(s)) {
        None => None,
        Some((key, s1)) => {
            let s2 = spec_skip_ws(s1);
            if s2.len() > 0 && s2[0] == ':' {
                match spec_parse_scalar(spec_skip_ws(s2.drop_first())) {
                    Some((val, rest)) => Some(((key, val), rest)),
                    None => None,
                }
            } else {
                None
            }
        },
    }
}

/// Parse one or more comma-separated members.
pub open spec fn spec_parse_members_ne(s: Seq<char>) -> Option<
    (Seq<(Seq<char>, ScalarValueView)>, Seq<char>),
>
    decreases s.len(),
{
    match spec_parse_member(s) {
        None => None,
        Some((kv, rest)) => {
            let r1 = spec_skip_ws(rest);
            if r1.len() > 0 && r1[0] == ',' {
                if r1.drop_first().len() < s.len() {
                    match spec_parse_members_ne(r1.drop_first()) {
                        Some((kvs, rest2)) => Some((seq![kv] + kvs, rest2)),
                        None => None,
                    }
                } else {
                    None
                }
            } else {
                Some((seq![kv], r1))
            }
        },
    }
}

/// Parse a whole line as one flat object; nothing but whitespace may follow
/// it.
pub open spec fn spec_parse_flat_object(s: Seq<char>) -> Option<
    Seq<(Seq<char>, ScalarValueView)>,
> {
    let s0 = spec_skip_ws(s);
    if s0.len() > 0 && s0[0] == '{' {
        let s1 = spec_skip_ws(s0.drop_first());
        if s1.len() > 0 && s1[0] == '}' {
            if spec_skip_ws(s1.drop_first()).len() == 0 {
                Some(Seq::<(Seq<char>, ScalarValueView)>::empty())
            } else {
                None
            }
        } else {
            match spec_parse_members_ne(s1) {
                None => None,
                Some((kvs, rest)) => {
                    if rest.len() > 0 && rest[0] == '}' && spec_skip_ws(rest.drop_first()).len()
                        == 0 {
                        Some(kvs)
                    } else {
                        None
                    }
                },
            }
        }
    } else {
        None
    }
}

/// The value under a key; with a repeated key the last occurrence wins.
pub open spec fn spec_lookup(kvs: Seq<(Seq<char>, ScalarValueView)>, key: Seq<char>) -> Option<
    ScalarValueView,
>
    decreases kvs.len(),
{
    if kvs.len() == 0 {
        None
    } else if kvs.last().0 == key {
        Some(kvs.last().1)
    } else {
        spec_lookup(kvs.drop_last(), key)
    }
}

// ---------------------------------------------------------------------------
// From pairs to a status event.
// ---------------------------------------------------------------------------

/// The text under a key, if it holds one.
pub open spec fn spec_text_of(kvs: Seq<(Seq<char>, ScalarValueView)>, key: Seq<char>) -> Option<
    Seq<char>,
> {
    match spec_lookup(kvs, key) {
        Some(ScalarValueView::Text(t)) => Some(t),
        _ => None,
    }
}

/// The status word an object carries; a missing or non-string status reads
/// as the unknown word.
pub open spec fn spec_status_of(kvs: Seq<(Seq<char>, ScalarValueView)>) -> EventStatusView {
    match spec_text_of(kvs, "status"@) {
        Some(w) => if w == "success"@ {
            EventStatusView::Success
        } else if w == "error"@ {
            EventStatusView::Error
        } else if w == "progress"@ {
            EventStatusView::Progress
        } else {
            EventStatusView::Other(w)
        },
        None => EventStatusView::Other("unknown"@),
    }
}

/// The status event a parsed flat object stands for; `None` when the
/// required download id is missing or not a string.
pub open spec fn spec_event_of_pairs(kvs: Seq<(Seq<char>, ScalarValueView)>) -> Option<
    StatusEventView,
> {
    match spec_text_of(kvs, "downloadId"@) {
        None => None,
        Some(id) => Some(
            StatusEventView {
                download_id: id,
                status: spec_status_of(kvs),
                progress: match spec_lookup(kvs, "progress"@) {
                    Some(ScalarValueView::Hundredths(n)) => Some(n),
                    _ => None,
                },
                path: spec_text_of(kvs, "path"@),
                filename: spec_text_of(kvs, "filename"@),
                message: spec_text_of(kvs, "message"@),
                download_started: match spec_lookup(kvs, "downloadStarted"@) {
                    Some(ScalarValueView::Flag(b)) => b,
                    _ => false,
                },
            },
        ),
    }
}

/// Why a line of helper output yields no status event.
#[derive(Clone, Copy, Debug, PartialEq, Eq, Structural)]
pub enum LineError {
    /// The line is not one flat JSON object: diagnostic output, dropped.
    NotJson,
    /// The object carries no string `downloadId`.
    MissingDownloadId,
}

// ---------------------------------------------------------------------------
// Exec parsing.
// ---------------------------------------------------------------------------

/// Whether a character counts as JSON whitespace.
fn char_is_ws(c: char) -> (r: bool)
    ensures
        r == spec_is_ws(c),
{
    c == ' ' || c == '\t' || c == '\n' || c == '\r'
}

/// The position after the leading whitespace at `i`.
fn skip_ws_at(v: &Vec<char>, i: usize) -> (j: usize)
    requires
        i <= v@.len(),
    ensures
        i <= j <= v@.len(),
        spec_skip_ws(v@.skip(i as int)) == v@.skip(j as int),
{
    let n = v.len();
    let mut j = i;
    while j < n && char_is_ws(v[j])
        invariant
            i <= j <= n,
            n == v@.len(),
            spec_skip_ws(v@.skip(i as int)) == spec_skip_ws(v@.skip(j as int)),
        decreases n - j,
    {
        proof {
            assert(v@.skip(j as int)[0] == v@[j as int]);
            assert(v@.skip(j as int).drop_first() =~= v@.skip(j + 1 as int));
        }
        j = j + 1;
    }
    proof {
        if j < n {
            assert(v@.skip(j as int)[0] == v@[j as int]);
        } else {
            assert(v@.skip(j as int).len() == 0);
        }
    }
    j
}

/// Parse a JSON number at `i`, as saturating hundredths.
#[verifier::rlimit(30)]
fn parse_number_at(v: &Vec<char>, i: usize) -> (r: Option<(u32, usize)>)
    requires
        i <= v@.len(),
    ensures
        match r {
            Some((x, j)) => {
                &&& i <= j <= v@.len()
                &&& spec_parse_number(v@.skip(i as int)) == Some((x, v@.skip(j as int)))
            },
            None => spec_parse_number(v@.skip(i as int)) is None,
        },
{
    let n = v.len();
    if i < n && v[i] == '-' {
        proof {
            assert(v@.skip(i as int)[0] == '-');
            assert(v@.skip(i as int).drop_first() =~= v@.skip(i + 1 as int));
        }
        match parse_number_body_at(v, i + 1) {
            Some((_, j)) => Some((0, j)),
            None => None,
        }
    } else {
        proof {
            if i < n {
                assert(v@.skip(i as int)[0] == v@[i as int]);
            } else {
                assert(v@.skip(i as int).len() == 0);
            }
        }
        parse_number_body_at(v, i)
    }
}

/// Scan the digit run at `i`: the position after it and its value, exactly
/// when the value fits 32 bits.
fn scan_digits_at(v: &Vec<char>, i: usize) -> (r: (usize, Option<u32>))
    requires
        i <= v@.len(),
    ensures
        i <= r.0 <= v@.len(),
        r.0 - i == spec_digits_len(v@.skip(i as int)),
        match r.1 {
            Some(x) => x == spec_digits_val(v@.skip(i as int).take(r.0 - i)),
            None => spec_digits_val(v@.skip(i as int).take(r.0 - i)) > u32::MAX,
        },
{
    let n = v.len();
    let ghost suf = v@.skip(i as int);
    let mut j = i;
    let mut val: u64 = 0;
    let mut sat = false;
    while j < n && char_is_digit(v[j])
        invariant
            i <= j <= n,
            n == v@.len(),
            suf == v@.skip(i as int),
            forall|k: int| i <= k < j ==> spec_is_digit(#[trigger] v@[k]),
            !sat ==> val == spec_digits_val(suf.take(j - i)) && val <= u32::MAX,
            sat ==> spec_digits_val(suf.take(j - i)) > u32::MAX,
        decreases n - j,
    {
        let d = digit_val_of(v[j]) as u64;
        proof {
            assert(suf.take(j + 1 - i).drop_last() =~= suf.take(j - i));
            assert(suf.take(j + 1 - i).last() == v@[j as int]);
            if sat {
                let prev = spec_digits_val(suf.take(j - i));
                assert(spec_digits_val(suf.take(j + 1 - i)) == prev * 10 + spec_digit_val(
                    v@[j as int],
                ));
                assert(prev * 10 >= prev * 2) by (nonlinear_arith)
                    requires prev >= 0;
            }
        }
        if !sat {
            let newval: u64 = val * 10 + d;
            if newval > 0xffff_ffff {
                sat = true;
            } else {
                val = newval;
            }
        }
        j = j + 1;
    }
    proof {
        assert forall|k: int| 0 <= k < j - i implies spec_is_digit(#[trigger] suf.take(j - i)[k])
            by {
            assert(suf.take(j - i)[k] == v@[i + k]);
        }
        assert(suf.take(j - i) + suf.skip(j - i) =~= suf);
        if j < n {
            assert(suf.skip(j - i)[0] == v@[j as int]);
        }
        crate::json::lemma_digits_len_exact(suf.take(j - i), suf.skip(j - i));
    }
    if sat {
        (j, None)
    } else {
        (j, Some(val as u32))
    }
}

/// Parse digits with an optional fraction at `i`, as saturating hundredths.
#[verifier::rlimit(60)]
fn parse_number_body_at(v: &Vec<char>, i: usize) -> (r: Option<(u32, usize)>)
    requires
        i <= v@.len(),
    ensures
        match r {
            Some((x, j)) => {
                &&& i <= j <= v@.len()
                &&& spec_parse_number_body(v@.skip(i as int)) == Some((x, v@.skip(j as int)))
            },
            None => spec_parse_number_body(v@.skip(i as int)) is None,
        },
{
    let n = v.len();
    let ghost suf = v@.skip(i as int);
    let (jw, whole) = scan_digits_at(v, i);
    if jw == i {
        return None;
    }
    proof {
        assert(suf.skip(jw - i) =~= v@.skip(jw as int));
    }
    let (frac, jf): (u32, usize) = if jw < n && v[jw] == '.' {
        proof {
            assert(v@.skip(jw as int)[0] == '.');
            assert(v@.skip(jw as int).drop_first() =~= v@.skip(jw + 1 as int));
        }
        let (jd, _) = scan_digits_at(v, jw + 1);
        if jd == jw + 1 {
            return None;
        }
        let d0 = digit_val_of(v[jw + 1]);
        let f: u32 = if jd - jw >= 3 {
            let d1 = digit_val_of(v[jw + 2]);
            d0 * 10 + d1
        } else {
            d0 * 10
        };
        proof {
            let fs = v@.skip(jw + 1 as int);
            let m = jd - (jw + 1);
            assert(fs.take(m as int)[0] == v@[jw + 1]);
            if m >= 2 {
                assert(fs.take(m as int)[1] == v@[jw + 2]);
            }
            assert(f == spec_frac_hundredths(fs.take(m as int)));
        }
        (f, jd)
    } else {
        proof {
            if jw < n {
                assert(v@.skip(jw as int)[0] == v@[jw as int]);
            } else {
                assert(v@.skip(jw as int).len() == 0);
            }
        }
        (0, jw)
    };
    let ghost wv = spec_digits_val(suf.take(jw - i));
    let value: u32 = match whole {
        Some(w) => {
            let h: u64 = (w as u64) * 100 + (frac as u64);
            if h > 0xffff_ffff {
                proof {
                    assert(wv * 100 + frac > u32::MAX);
                }
                u32::MAX
            } else {
                proof {
                    assert(wv * 100 + frac <= u32::MAX);
                }
                h as u32
            }
        },
        None => {
            proof {
                assert(wv * 100 >= wv) by (nonlinear_arith)
                    requires wv >= 0;
            }
            u32::MAX
        },
    };
    proof {
        if jf > jw {
            assert(v@.skip(jw + 1 as int).skip(jf - (jw + 1)) =~= v@.skip(jf as int));
        }
    }
    Some((value, jf))
}

/// Parse one scalar value at `i`.
fn parse_scalar_at(v: &Vec<char>, i: usize) -> (r: Option<(ScalarValue, usize)>)
    requires
        i <= v@.len(),
    ensures
        match r {
            Some((s, j)) => {
                &&& i <= j <= v@.len()
                &&& spec_parse_scalar(v@.skip(i as int)) == Some((s@, v@.skip(j as int)))
            },
            None => spec_parse_scalar(v@.skip(i as int)) is None,
        },
{
    let n = v.len();
    proof {
        if i < n {
            assert(v@.skip(i as int)[0] == v@[i as int]);
        } else {
            assert(v@.skip(i as int).len() == 0);
        }
    }
    if i < n && v[i] == '"' {
        match parse_string_at(v, i) {
            Some((s, j)) => Some((ScalarValue::Text(s), j)),
            None => None,
        }
    } else if i < n && (v[i] == '-' || char_is_digit(v[i])) {
        match parse_number_at(v, i) {
            Some((x, j)) => Some((ScalarValue::Hundredths(x), j)),
            None => None,
        }
    } else {
        match parse_lit_at(v, i, "true") {
            Some(j) => Some((ScalarValue::Flag(true), j)),
            None => match parse_lit_at(v, i, "false") {
                Some(j) => Some((ScalarValue::Flag(false), j)),
                None => match parse_lit_at(v, i, "null") {
                    Some(j) => Some((ScalarValue::Null, j)),
                    None => None,
                },
            },
        }
    }
}

/// Parse one `"key": value` member at `i`.
fn parse_member_at(v: &Vec<char>, i: usize) -> (r: Option<((String, ScalarValue), usize)>)
    requires
        i <= v@.len(),
    ensures
        match r {
            Some(((k, s), j)) => {
                &&& i <= j <= v@.len()
                &&& spec_parse_member(v@.skip(i as int)) == Some(((k@, s@), v@.skip(j as int)))
            },
            None => spec_parse_member(v@.skip(i as int)) is None,
        },
{
    let n = v.len();
    let i0 = skip_ws_at(v, i);
    let (key, j1) = match parse_string_at(v, i0) {
        Some(x) => x,
        None => {
            return None;
        },
    };
    let j2 = skip_ws_at(v, j1);
    if j2 < n && v[j2] == ':' {
        proof {
            assert(v@.skip(j2 as int)[0] == ':');
            assert(v@.skip(j2 as int).drop_first() =~= v@.skip(j2 + 1 as int));
        }
        let j3 = skip_ws_at(v, j2 + 1);
        match parse_scalar_at(v, j3) {
            Some((val, j4)) => Some(((key, val), j4)),
            None => None,
        }
    } else {
        proof {
            if j2 < n {
                assert(v@.skip(j2 as int)[0] == v@[j2 as int]);
            } else {
                assert(v@.skip(j2 as int).len() == 0);
            }
        }
        None
    }
}

/// Parse one or more comma-separated members at `i`.
fn parse_members_ne_at(v: &Vec<char>, i: usize) -> (r: Option<
    (Vec<(String, ScalarValue)>, usize),
>)
    requires
        i <= v@.len(),
    ensures
        match r {
            Some((kvs, j)) => {
                &&& i <= j <= v@.len()
                &&& spec_parse_members_ne(v@.skip(i as int)) == Some(
                    (kvs@.map_values(|p: (String, ScalarValue)| (p.0@, p.1@)), v@.skip(j as int)),
                )
            },
            None => spec_parse_members_ne(v@.skip(i as int)) is None,
        },
    decreases v@.len() - i,
{
    let n = v.len();
    let (kv, j) = match parse_member_at(v, i) {
        Some(x) => x,
        None => {
            return None;
        },
    };
    let j1 = skip_ws_at(v, j);
    if j1 < n && v[j1] == ',' {
        proof {
            assert(v@.skip(j1 as int)[0] == ',');
            assert(v@.skip(j1 as int).drop_first() =~= v@.skip(j1 + 1 as int));
            assert(v@.skip(j1 + 1 as int).len() < v@.skip(i as int).len());
        }
        match parse_members_ne_at(v, j1 + 1) {
            Some((mut kvs, j2)) => {
                let ghost tailviews = kvs@.map_values(|p: (String, ScalarValue)| (p.0@, p.1@));
                kvs.insert(0, kv);
                proof {
                    assert(kvs@.map_values(|p: (String, ScalarValue)| (p.0@, p.1@)) =~= seq![
                        (kvs@[0].0@, kvs@[0].1@),
                    ] + tailviews);
                }
                Some((kvs, j2))
            },
            None => None,
        }
    } else {
        proof {
            if j1 < n {
                assert(v@.skip(j1 as int)[0] == v@[j1 as int]);
            } else {
                assert(v@.skip(j1 as int).len() == 0);
            }
        }
        let mut kvs: Vec<(String, ScalarValue)> = Vec::new();
        kvs.push(kv);
        proof {
            assert(kvs@.map_values(|p: (String, ScalarValue)| (p.0@, p.1@)) =~= seq![
                (kvs@[0].0@, kvs@[0].1@),
            ]);
        }
        Some((kvs, j1))
    }
}

/// Parse a whole line as one flat object.
fn parse_flat_object(line: &str) -> (r: Option<Vec<(String, ScalarValue)>>)
    ensures
        match r {
            Some(kvs) => spec_parse_flat_object(line@) == Some(
                kvs@.map_values(|p: (String, ScalarValue)| (p.0@, p.1@)),
            ),
            None => spec_parse_flat_object(line@) is None,
        },
{
    let v = str_to_chars(line);
    proof {
        assert(v@.skip(0) =~= line@);
    }
    let n = v.len();
    let i0 = skip_ws_at(&v, 0);
    if !(i0 < n && v[i0] == '{') {
        proof {
            if i0 < n {
                assert(v@.skip(i0 as int)[0] == v@[i0 as int]);
            } else {
                assert(v@.skip(i0 as int).len() == 0);
            }
        }
        return None;
    }
    proof {
        assert(v@.skip(i0 as int)[0] == '{');
        assert(v@.skip(i0 as int).drop_first() =~= v@.skip(i0 + 1 as int));
    }
    let i1 = skip_ws_at(&v, i0 + 1);
    if i1 < n && v[i1] == '}' {
        proof {
            assert(v@.skip(i1 as int)[0] == '}');
            assert(v@.skip(i1 as int).drop_first() =~= v@.skip(i1 + 1 as int));
        }
        let i2 = skip_ws_at(&v, i1 + 1);
        if i2 == n {
            let kvs: Vec<(String, ScalarValue)> = Vec::new();
            proof {
                assert(v@.skip(i2 as int).len() == 0);
                assert(kvs@.map_values(|p: (String, ScalarValue)| (p.0@, p.1@))
                    =~= Seq::<(Seq<char>, ScalarValueView)>::empty());
            }
            Some(kvs)
        } else {
            proof {
                assert(v@.skip(i2 as int).len() > 0);
            }
            None
        }
    } else {
        proof {
            if i1 < n {
                assert(v@.skip(i1 as int)[0] == v@[i1 as int]);
            } else {
                assert(v@.skip(i1 as int).len() == 0);
            }
        }
        let (kvs, j) = match parse_members_ne_at(&v, i1) {
            Some(x) => x,
            None => {
                return None;
            },
        };
        if j < n && v[j] == '}' {
            proof {
                assert(v@.skip(j as int)[0] == '}');
                assert(v@.skip(j as int).drop_first() =~= v@.skip(j + 1 as int));
            }
            let j1 = skip_ws_at(&v, j + 1);
            if j1 == n {
                proof {
                    assert(v@.skip(j1 as int).len() == 0);
                }
                Some(kvs)
            } else {
                proof {
                    assert(v@.skip(j1 as int).len() > 0);
                }
                None
            }
        } else {
            proof {
                if j < n {
                    assert(v@.skip(j as int)[0] == v@[j as int]);
                } else {
                    assert(v@.skip(j as int).len() == 0);
                }
            }
            None
        }
    }
}

/// The value under a key, cloned; with a repeated key the last occurrence
/// wins.
fn lookup(kvs: &Vec<(String, ScalarValue)>, key: &str) -> (r: Option<ScalarValue>)
    ensures
        match r {
            Some(s) => spec_lookup(
                kvs@.map_values(|p: (String, ScalarValue)| (p.0@, p.1@)),
                key@,
            ) == Some(s@),
            None => spec_lookup(
                kvs@.map_values(|p: (String, ScalarValue)| (p.0@, p.1@)),
                key@,
            ) is None,
        },
{
    let ghost views = kvs@.map_values(|p: (String, ScalarValue)| (p.0@, p.1@));
    let n = kvs.len();
    let mut i: usize = n;
    proof {
        assert(views.take(n as int) =~= views);
    }
    while i > 0
        invariant
            i <= n,
            n == kvs@.len(),
            views == kvs@.map_values(|p: (String, ScalarValue)| (p.0@, p.1@)),
            spec_lookup(views, key@) == spec_lookup(views.take(i as int), key@),
        decreases i,
    {
        i = i - 1;
        if kvs[i].0.eq(&String::from_str(key)) {
            proof {
                assert(views.take(i + 1 as int).last() == views[i as int]);
            }
            return Some(clone_scalar(&kvs[i].1));
        }
        proof {
            assert(views.take(i + 1 as int).last() == views[i as int]);
            assert(views.take(i + 1 as int).drop_last() =~= views.take(i as int));
        }
    }
    proof {
        assert(views.take(0).len() == 0);
    }
    None
}

/// A clone of one scalar, equal in value.
fn clone_scalar(s: &ScalarValue) -> (r: ScalarValue)
    ensures
        r@ == s@,
{
    match s {
        ScalarValue::Text(t) => ScalarValue::Text(t.clone()),
        ScalarValue::Hundredths(n) => ScalarValue::Hundredths(*n),
        ScalarValue::Flag(b) => ScalarValue::Flag(*b),
        ScalarValue::Null => ScalarValue::Null,
    }
}

/// The text under a key, if it holds one.
fn text_of(kvs: &Vec<(String, ScalarValue)>, key: &str) -> (r: Option<String>)
    ensures
        crate::record::opt_view(r) == spec_text_of(
            kvs@.map_values(|p: (String, ScalarValue)| (p.0@, p.1@)),
            key@,
        ),
{
    match lookup(kvs, key) {
        Some(ScalarValue::Text(t)) => Some(t),
        _ => None,
    }
}

/// Decode one line of helper output: a flat JSON object becomes a status
/// event; any other line is diagnostic only, and an object without a string
/// download id is rejected.
pub fn parse_status_line(line: &str) -> (r: Result<StatusEvent, LineError>)
    ensures
        match r {
            Ok(ev) => {
                &&& spec_parse_flat_object(line@) is Some
                &&& spec_event_of_pairs(spec_parse_flat_object(line@)->Some_0) == Some(ev@)
            },
            Err(LineError::NotJson) => spec_parse_flat_object(line@) is None,
            Err(LineError::MissingDownloadId) => {
                &&& spec_parse_flat_object(line@) is Some
                &&& spec_event_of_pairs(spec_parse_flat_object(line@)->Some_0) is None
            },
        },
{
    let kvs = match parse_flat_object(line) {
        Some(x) => x,
        None => {
            return Err(LineError::NotJson);
        },
    };
    let download_id = match text_of(&kvs, "downloadId") {
        Some(id) => id,
        None => {
            return Err(LineError::MissingDownloadId);
        },
    };
    let status = match text_of(&kvs, "status") {
        Some(w) => {
            if crate::codec::string_eq_lit(&w, "success") {
                EventStatus::Success
            } else if crate::codec::string_eq_lit(&w, "error") {
                EventStatus::Error
            } else if crate::codec::string_eq_lit(&w, "progress") {
                EventStatus::Progress
            } else {
                EventStatus::Other(w)
            }
        },
        None => EventStatus::Other(String::from_str("unknown")),
    };
    let progress = match lookup(&kvs, "progress") {
        Some(ScalarValue::Hundredths(n)) => Some(n),
        _ => None,
    };
    let download_started = match lookup(&kvs, "downloadStarted") {
        Some(ScalarValue::Flag(b)) => b,
        _ => false,
    };
    let ev = StatusEvent {
        download_id,
        status,
        progress,
        path: text_of(&kvs, "path"),
        filename: text_of(&kvs, "filename"),
        message: text_of(&kvs, "message"),
        download_started,
    };
    Ok(ev)
}

} // verus!
