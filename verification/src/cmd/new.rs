//! `folio new`: sequential document IDs.
use vstd::prelude::*;
use crate::text::{
    all_digits, chars_of, digits, digit_char, find_from, is_ascii_digit, unsigned_digits, first_match, i32_text, int_text, lemma_first_match_bounds,
    matches_at, replace_from, parse_u32, parse_u32_spec, bounded_digits, digits_value, parse_digits, push_char, replace, replace_all, string_from, string_of, u32_text,
    utf8_len, utf8_len_of, same_text, concat3, debug_str, debug_text,
};
use crate::date::{parse_ymd, ymd_parse, Date};
use crate::decimal::{decimal_parse, opt_pair, parse_decimal};
use crate::error::FolioError;
use crate::types::{setting_or, FolioConfig, Invoice, LineItem, Quote};

verus! {

/// Arguments of `folio new`: create a new invoice or quote interactively.
#[derive(Clone, Debug)]
pub struct NewArgs {
    /// Client slug to pre-fill (must match a file in `clients/`).
    pub client: Option<String>,
    /// Invoice date in `YYYY-MM-DD` format (defaults to today).
    pub date: Option<String>,
    /// Document type to create: `invoice` or `quote`.
    pub doc_type: Option<String>,
}

/// `d` padded on the left with `'0'` to at least `width` characters.
pub open spec fn zero_pad(d: Seq<char>, width: nat) -> Seq<char> {
    if d.len() >= width {
        d
    } else {
        Seq::new((width - d.len()) as nat, |i: int| '0') + d
    }
}

/// The pad width a `{seq:SPEC}` token asks for.  A numeric `SPEC` is the
/// width, as in `{:03}` (`{seq:03}` pads to 3 digits); any other `SPEC`
/// pads to its byte length (saturating at `usize::MAX`); the width is at
/// least 1.
pub open spec fn pad_width(spec: Seq<char>) -> nat {
    if bounded_digits(spec, u32::MAX as nat) is Some {
        let v = digits_value(spec);
        if v == 0 {
            1
        } else {
            v
        }
    } else {
        let n = utf8_len(spec);
        if n == 0 {
            1
        } else if n > usize::MAX {
            usize::MAX as nat
        } else {
            n
        }
    }
}

/// An ID built from a format: `{year}` becomes the year; the first
/// `{seq:SPEC}` becomes the sequence number zero-padded to the byte length
/// of `SPEC`; without such a token every `{seq}` becomes the plain number.
pub open spec fn format_id_spec(format: Seq<char>, year: int, seq: nat) -> Seq<char> {
    let r = replace_all(format, "{year}"@, int_text(year));
    match first_match(r, "{seq:"@, 0) {
        Some(start) => match first_match(r, "}"@, start) {
            Some(end) => r.subrange(0, start) + zero_pad(digits(seq), pad_width(r.subrange(start + 5, end)))
                + r.subrange(end + 1, r.len() as int),
            None => r,
        },
        None => replace_all(r, "{seq}"@, digits(seq)),
    }
}

/// The UTF-8 length of `s[from..to]`, saturating at `usize::MAX`.
fn byte_len_saturating(s: &Vec<char>, from: usize, to: usize) -> (r: usize)
    requires
        from <= to <= s.len(),
    ensures
        r == (if utf8_len(s@.subrange(from as int, to as int)) > usize::MAX {
            usize::MAX as nat
        } else {
            utf8_len(s@.subrange(from as int, to as int))
        }),
{
    let mut n: usize = 0;
    let mut i = from;
    while i < to
        invariant
            from <= i <= to <= s.len(),
            n == (if utf8_len(s@.subrange(from as int, i as int)) > usize::MAX {
                usize::MAX as nat
            } else {
                utf8_len(s@.subrange(from as int, i as int))
            }),
        decreases to - i,
    {
        let c: u32 = s[i] as u32;
        let w: usize = if c < 0x80 { 1 } else if c < 0x800 { 2 } else if c < 0x10000 { 3 } else { 4 };
        assert(s@.subrange(from as int, i + 1).drop_last() =~= s@.subrange(from as int, i as int));
        n = if n > usize::MAX - w { usize::MAX } else { n + w };
        i = i + 1;
    }
    n
}

/// Format an ID from a format string, replacing `{year}` and `{seq:NNN}`.
///
/// The `{seq:NNN}` token is zero-padded to the width its spec asks for
/// (`{seq:03}` pads to 3 digits, see [`pad_width`]).  With the default
/// format `INV-{year}-{seq:03}` and a year of the common era, the ID is
/// `INV-<year>-` and the padded number, and [`id_sequence_number`] reads
/// `seq` back from it.
pub fn format_id(format: &str, year: i32, seq: u32) -> (r: String)
    ensures
        r@ == format_id_spec(format@, year as int, seq as nat),
        (format@ == "INV-{year}-{seq:03}"@ && year >= 0) ==> {
            &&& r@ == "INV-"@ + digits(year as nat) + seq!['-'] + zero_pad(digits(seq as nat), 3)
            &&& id_seq(r@) == Some(seq)
        },
{
    proof {
        if format@ == "INV-{year}-{seq:03}"@ && year >= 0 {
            law_default_invoice_id_reads_back(year as int, seq);
        }
    }
    let f = chars_of(format);
    let year_pat = chars_of("{year}");
    proof {
        reveal_strlit("{year}");
    }
    let result = replace(&f, &year_pat, &i32_text(year));
    let seq_open = chars_of("{seq:");
    proof {
        reveal_strlit("{seq:");
        reveal_strlit("}");
        lemma_first_match_bounds(result@, "{seq:"@, 0);
    }
    match find_from(&result, &seq_open, 0) {
        Some(start) => {
            let close = chars_of("}");
            proof {
                lemma_first_match_bounds(result@, "}"@, start as int);
            }
            match find_from(&result, &close, start) {
                Some(end) => {
                    proof {
                        assert(result@.subrange(start as int, start + 5) == "{seq:"@);
                        assert(result@.subrange(end as int, end + 1) == "}"@);
                        assert(end + 1 <= result@.len());
                        if end < start + 5 {
                            assert(result@[end as int] == result@.subrange(start as int, start + 5)[end - start]);
                            assert(result@.subrange(end as int, end + 1)[0] == result@[end as int]);
                            assert(result@[end as int] == '}');
                        }
                    }
                    let rl = result.len();
                    assert(end < rl);
                    let after = end + 1;
                    let spec_text = string_from(&result, start + 5, end);
                    let spec_chars = chars_of(spec_text.as_str());
                    let n: usize = match parse_digits(&spec_chars, 0, 4294967295) {
                        Some(v) => {
                            assert(spec_chars@.subrange(0, spec_chars@.len() as int) =~= spec_chars@);
                            v as usize
                        },
                        None => {
                            assert(spec_chars@.subrange(0, spec_chars@.len() as int) =~= spec_chars@);
                            byte_len_saturating(&result, start + 5, end)
                        },
                    };
                    let width: usize = if n == 0 { 1 } else { n };
                    let d = u32_text(seq);
                    let mut out = string_from(&result, 0, start);
                    let ghost prefix = out@;
                    let pad: usize = if width > d.len() { width - d.len() } else { 0 };
                    let mut z: usize = 0;
                    while z < pad
                        invariant
                            0 <= z <= pad,
                            out@ == prefix + Seq::new(z as nat, |i: int| '0'),
                        decreases pad - z,
                    {
                        push_char(&mut out, '0');
                        z = z + 1;
                        assert(out@ =~= prefix + Seq::new(z as nat, |i: int| '0'));
                    }
                    assert(out@ =~= prefix + (if d@.len() >= width { Seq::empty() } else { Seq::new((width - d@.len()) as nat, |i: int| '0') }));
                    let mut j: usize = 0;
                    let ghost padded = out@;
                    while j < d.len()
                        invariant
                            0 <= j <= d.len(),
                            out@ == padded + d@.subrange(0, j as int),
                        decreases d.len() - j,
                    {
                        push_char(&mut out, d[j]);
                        j = j + 1;
                        assert(out@ =~= padded + d@.subrange(0, j as int));
                    }
                    let mut m: usize = after;
                    let ghost middle = out@;
                    while m < result.len()
                        invariant
                            end + 1 <= m <= result.len(),
                            out@ == middle + result@.subrange(end + 1, m as int),
                        decreases result.len() - m,
                    {
                        push_char(&mut out, result[m]);
                        m = m + 1;
                        assert(out@ =~= middle + result@.subrange(end + 1, m as int));
                    }
                    assert(d@.subrange(0, d@.len() as int) =~= d@);
                    assert(out@ =~= result@.subrange(0, start as int) + zero_pad(digits(seq as nat), width as nat)
                        + result@.subrange(end + 1, result@.len() as int));
                    out
                },
                None => string_of(&result),
            }
        },
        None => {
            let plain = chars_of("{seq}");
            proof {
                reveal_strlit("{seq}");
            }
            string_of(&replace(&result, &plain, &u32_text(seq)))
        },
    }
}


/// The text after the last `-` of an ID (all of it when there is none),
/// which is what `split('-').last()` yields.
pub open spec fn last_segment_start(s: Seq<char>) -> int
    decreases s.len(),
{
    if s.len() == 0 {
        0
    } else if s.last() == '-' {
        s.len() as int
    } else {
        last_segment_start(s.drop_last())
    }
}

/// The sequence number an ID ends in, if its last `-` segment is a number.
pub open spec fn id_seq(id: Seq<char>) -> Option<u32> {
    parse_u32_spec(id.subrange(last_segment_start(id), id.len() as int))
}

/// The largest sequence number among the first `n` IDs (0 when none has one).
pub open spec fn max_seq(ids: Seq<String>, n: int) -> u32
    decreases n,
{
    if n <= 0 {
        0
    } else {
        let prev = max_seq(ids, n - 1);
        match id_seq(ids[n - 1]@) {
            Some(v) => if v > prev { v } else { prev },
            None => prev,
        }
    }
}

proof fn lemma_digit_char_value(k: nat)
    requires
        k < 10,
    ensures
        is_ascii_digit(digit_char(k)),
        ((digit_char(k) as u32) - ('0' as u32)) as nat == k,
{
    assert(('0' as u32) == 48 && ('1' as u32) == 49 && ('2' as u32) == 50 && ('3' as u32) == 51
        && ('4' as u32) == 52 && ('5' as u32) == 53 && ('6' as u32) == 54 && ('7' as u32) == 55
        && ('8' as u32) == 56 && ('9' as u32) == 57);
}

proof fn lemma_digits_read_back(n: nat)
    ensures
        digits(n).len() >= 1,
        all_digits(digits(n)),
        digits_value(digits(n)) == n,
    decreases n,
{
    if n < 10 {
        lemma_digit_char_value(n);
        assert(digits(n).drop_last() =~= Seq::<char>::empty());
        assert(digits_value(Seq::<char>::empty()) == 0);
        assert(digits_value(digits(n)) == n);
    } else {
        lemma_digits_read_back(n / 10);
        let d = digits(n / 10);
        let c = digit_char(n % 10);
        lemma_digit_char_value(n % 10);
        assert(digits(n).drop_last() =~= d);
        assert(digits(n).last() == c);
        assert(digits_value(digits(n)) == digits_value(d) * 10 + ((c as u32) - ('0' as u32)) as nat);
        assert forall|i: int| 0 <= i < digits(n).len() implies is_ascii_digit(#[trigger] digits(n)[i]) by {
            if i < d.len() {
                assert(digits(n)[i] == d[i]);
            }
        }
    }
}

proof fn lemma_zeros_value(z: Seq<char>)
    requires
        forall|i: int| 0 <= i < z.len() ==> z[i] == '0',
    ensures
        digits_value(z) == 0,
    decreases z.len(),
{
    if z.len() > 0 {
        lemma_zeros_value(z.drop_last());
    }
}

/// Leading zeros change neither that a text is all digits nor its value.
proof fn lemma_zero_pad_value(d: Seq<char>, z: Seq<char>)
    requires
        forall|i: int| 0 <= i < z.len() ==> z[i] == '0',
        all_digits(d),
    ensures
        all_digits(z + d),
        digits_value(z + d) == digits_value(d),
    decreases d.len(),
{
    assert forall|i: int| 0 <= i < (z + d).len() implies is_ascii_digit(#[trigger] (z + d)[i]) by {
        if i >= z.len() {
            assert((z + d)[i] == d[i - z.len()]);
        }
    }
    if d.len() == 0 {
        assert(z + d =~= z);
        lemma_zeros_value(z);
    } else {
        assert((z + d).drop_last() =~= z + d.drop_last());
        lemma_zero_pad_value(d.drop_last(), z);
    }
}

/// After a `-`, text without one is the last segment.
proof fn lemma_last_segment_after_dash(prefix: Seq<char>, tail: Seq<char>)
    requires
        !tail.contains('-'),
    ensures
        last_segment_start(prefix + seq!['-'] + tail) == prefix.len() + 1,
    decreases tail.len(),
{
    let s = prefix + seq!['-'] + tail;
    if tail.len() == 0 {
        assert(s.last() == '-');
    } else {
        assert(s.last() == tail.last());
        assert(s.drop_last() =~= prefix + seq!['-'] + tail.drop_last());
        assert(!tail.drop_last().contains('-')) by {
            if tail.drop_last().contains('-') {
                let k = choose|k: int| 0 <= k < tail.drop_last().len() && tail.drop_last()[k] == '-';
                assert(tail[k] == '-');
            }
        }
        assert(tail.last() != '-') by {
            assert(tail[tail.len() - 1] == tail.last());
        }
        lemma_last_segment_after_dash(prefix, tail.drop_last());
    }
}

/// An ID that ends in `-` and a zero-padded sequence number, as
/// [`format_id`] writes `{seq:SPEC}` at the end of a format, reads back
/// as that number with [`id_sequence_number`].
pub proof fn law_padded_seq_reads_back(prefix: Seq<char>, seq: u32, width: nat)
    ensures
        id_seq(prefix + seq!['-'] + zero_pad(digits(seq as nat), width)) == Some(seq),
{
    let d = digits(seq as nat);
    lemma_digits_read_back(seq as nat);
    let z: Seq<char> = if d.len() >= width { Seq::empty() } else { Seq::new((width - d.len()) as nat, |i: int| '0') };
    assert(zero_pad(d, width) =~= z + d);
    lemma_zero_pad_value(d, z);
    let p = z + d;
    assert(!p.contains('-')) by {
        if p.contains('-') {
            let k = choose|k: int| 0 <= k < p.len() && p[k] == '-';
            assert(is_ascii_digit(p[k]));
        }
    }
    lemma_last_segment_after_dash(prefix, p);
    let s = prefix + seq!['-'] + p;
    assert(s.subrange(prefix.len() + 1int, s.len() as int) =~= p);
    assert(is_ascii_digit(p[0]));
    assert(unsigned_digits(p) == p);
}

/// Positions whose character is not the first of `pat` hold no match.
proof fn lemma_first_match_skip(s: Seq<char>, pat: Seq<char>, from: int, to: int)
    requires
        0 <= from <= to <= s.len(),
        pat.len() > 0,
        forall|i: int| from <= i < to ==> #[trigger] s[i] != pat[0],
    ensures
        first_match(s, pat, from) == first_match(s, pat, to),
    decreases to - from,
{
    if from < to {
        if from + pat.len() <= s.len() {
            assert(s.subrange(from, from + pat.len())[0] == s[from]);
            assert(!matches_at(s, pat, from));
        } else {
            assert(first_match(s, pat, to) is None);
        }
        lemma_first_match_skip(s, pat, from + 1, to);
    }
}

/// The default invoice format, `INV-{year}-{seq:03}`, gives IDs such as
/// `INV-2026-001`: for a year of the common era, the ID is `INV-`, the
/// year, `-` and the number padded to three digits, and reading the number
/// back from the ID gives the sequence number it was made with.
pub proof fn law_default_invoice_id_reads_back(year: int, seq: u32)
    requires
        0 <= year,
    ensures
        format_id_spec("INV-{year}-{seq:03}"@, year, seq as nat)
            == "INV-"@ + digits(year as nat) + seq!['-'] + zero_pad(digits(seq as nat), 3),
        id_seq(format_id_spec("INV-{year}-{seq:03}"@, year, seq as nat)) == Some(seq),
{
    reveal_strlit("INV-{year}-{seq:03}");
    reveal_strlit("{year}");
    reveal_strlit("{seq:");
    reveal_strlit("}");
    reveal_strlit("INV-");
    let f = "INV-{year}-{seq:03}"@;
    let yp = "{year}"@;
    let y = int_text(year);
    lemma_digits_read_back(year as nat);
    assert(y == digits(year as nat));
    assert(f.len() == 19 && yp.len() == 6);

    // `{year}` occurs once, at 4.
    lemma_first_match_skip(f, yp, 0, 4);
    assert(f.subrange(4, 10) =~= yp);
    assert(first_match(f, yp, 4) == Some(4int));
    lemma_first_match_skip(f, yp, 12, 14);
    assert(first_match(f, yp, 14) is None);
    assert(f.subrange(11, 17)[1] != yp[1]);
    assert(!matches_at(f, yp, 11));
    assert(first_match(f, yp, 11) == first_match(f, yp, 12));
    lemma_first_match_skip(f, yp, 10, 11);
    assert(first_match(f, yp, 10) is None);
    assert(replace_from(f, yp, y, 10) == f.subrange(10, 19));
    let r = f.subrange(0, 4) + y + f.subrange(10, 19);
    assert(replace_all(f, yp, y) == r);

    // `{seq:` follows the year, and `}` closes it.
    let l = y.len() as int;
    let sp = "{seq:"@;
    assert(sp.len() == 5);
    assert forall|i: int| 0 <= i < 5 + l implies #[trigger] r[i] != sp[0] by {
        if 4 <= i < 4 + l {
            assert(r[i] == y[i - 4]);
            assert(is_ascii_digit(y[i - 4]));
        }
    }
    lemma_first_match_skip(r, sp, 0, 5 + l);
    assert(r.subrange(5 + l, 10 + l) =~= sp);
    assert(first_match(r, sp, 0) == Some(5 + l));
    let cp = "}"@;
    assert(cp.len() == 1);
    assert forall|i: int| 5 + l <= i < 12 + l implies #[trigger] r[i] != cp[0] by {
        assert(r[i] == f[i - l + 6]);
    }
    lemma_first_match_skip(r, cp, 5 + l, 12 + l);
    assert(r.subrange(12 + l, 13 + l) =~= cp);
    assert(first_match(r, cp, 5 + l) == Some(12 + l));

    // The spec `03` pads to three digits.
    let w = r.subrange(10 + l, 12 + l);
    assert(w =~= seq!['0', '3']);
    assert(w.drop_last() =~= seq!['0']);
    assert(w.drop_last().drop_last() =~= Seq::<char>::empty());
    assert(('0' as u32) == 48 && ('3' as u32) == 51);
    assert(digits_value(w.drop_last().drop_last()) == 0);
    assert(w.drop_last().last() == '0' && w.last() == '3');
    assert(digits_value(w.drop_last()) == 0);
    assert(digits_value(w) == 3);
    assert(all_digits(w));
    assert(pad_width(w) == 3);

    assert(r.subrange(0, 5 + l) =~= "INV-"@ + digits(year as nat) + seq!['-']);
    assert(r.subrange(13 + l, r.len() as int) =~= Seq::<char>::empty());
    assert(format_id_spec(f, year, seq as nat)
        =~= "INV-"@ + digits(year as nat) + seq!['-'] + zero_pad(digits(seq as nat), 3));
    law_padded_seq_reads_back("INV-"@ + digits(year as nat), seq, 3);
}

/// The largest sequence number bounds every ID's own: so the next number
/// (one more) is taken by none of the documents already filed.
pub proof fn law_next_seq_is_unused(ids: Seq<String>, i: int)
    requires
        0 <= i < ids.len(),
    ensures
        id_seq(ids[i]@) matches Some(v) ==> v < max_seq(ids, ids.len() as int) + 1,
{
    lemma_max_seq_bounds(ids, ids.len() as int, i);
}

proof fn lemma_max_seq_bounds(ids: Seq<String>, n: int, i: int)
    requires
        0 <= i < n <= ids.len(),
    ensures
        id_seq(ids[i]@) matches Some(v) ==> v <= max_seq(ids, n),
    decreases n,
{
    if i < n - 1 {
        lemma_max_seq_bounds(ids, n - 1, i);
    }
}

proof fn lemma_last_segment_start_bounds(s: Seq<char>)
    ensures
        0 <= last_segment_start(s) <= s.len(),
    decreases s.len(),
{
    if s.len() > 0 && s.last() != '-' {
        lemma_last_segment_start_bounds(s.drop_last());
    }
}

/// The sequence number an ID ends in: the number after its last `-`.
/// It gives back the number [`format_id`] wrote at the end of an ID (see
/// [`law_padded_seq_reads_back`]).
pub fn id_sequence_number(id: &str) -> (r: Option<u32>)
    ensures
        r == id_seq(id@),
{
    let c = chars_of(id);
    let mut k = c.len();
    assert(c@.take(k as int) =~= c@);
    while k > 0 && c[k - 1] != '-'
        invariant
            k <= c.len(),
            last_segment_start(c@) == last_segment_start(c@.take(k as int)),
        decreases k,
    {
        assert(c@.take(k as int).drop_last() =~= c@.take(k - 1));
        k = k - 1;
    }
    proof {
        if k > 0 {
            assert(c@.take(k as int).last() == '-');
        }
        assert(c@.take(c@.len() as int) =~= c@);
    }
    parse_u32(&c, k)
}

/// The largest sequence number the given IDs end in, 0 when none does.
pub fn max_sequence(ids: &Vec<String>) -> (r: u32)
    ensures
        r == max_seq(ids@, ids@.len() as int),
{
    let mut best: u32 = 0;
    let mut i: usize = 0;
    while i < ids.len()
        invariant
            0 <= i <= ids.len(),
            best == max_seq(ids@, i as int),
        decreases ids.len() - i,
    {
        match id_sequence_number(ids[i].as_str()) {
            Some(v) => {
                if v > best {
                    best = v;
                }
            },
            None => {},
        }
        i = i + 1;
    }
    best
}

/// The next sequence number: one more than the largest number any of the
/// given IDs ends in, or 1 when none does.
///
/// The IDs are those of the documents already filed for the year.
pub fn next_invoice_seq(ids: &Vec<String>) -> (r: u32)
    requires
        max_seq(ids@, ids@.len() as int) < u32::MAX,
    ensures
        r == max_seq(ids@, ids@.len() as int) + 1,
{
    max_sequence(ids) + 1
}

/// The next sequence number, or `None` when the largest one in use is
/// already `u32::MAX`.
pub fn checked_next_seq(ids: &Vec<String>) -> (r: Option<u32>)
    ensures
        match r {
            Some(n) => max_seq(ids@, ids@.len() as int) < u32::MAX && n == max_seq(ids@, ids@.len() as int) + 1,
            None => max_seq(ids@, ids@.len() as int) == u32::MAX,
        },
{
    let m = max_sequence(ids);
    if m < u32::MAX {
        Some(m + 1)
    } else {
        None
    }
}

/// Does `--type` ask for a quote? Anything but `quote` makes an invoice.
pub fn is_quote_request(doc_type: &str) -> (r: bool)
    ensures
        r == (doc_type@ == "quote"@),
{
    same_text(doc_type, "quote")
}

/// The ID format of new invoices: `[invoice].id_format`, else
/// `[defaults].id_format`, else `INV-{year}-{seq:03}`.
pub open spec fn invoice_id_format_spec(config: FolioConfig) -> Seq<char> {
    match config.invoice {
        Some(i) => match i.id_format {
            Some(f) => f@,
            None => setting_or(config.defaults.id_format, "INV-{year}-{seq:03}"@),
        },
        None => setting_or(config.defaults.id_format, "INV-{year}-{seq:03}"@),
    }
}

pub fn invoice_id_format(config: &FolioConfig) -> (r: String)
    ensures
        r@ == invoice_id_format_spec(*config),
{
    let own = match &config.invoice {
        Some(i) => match &i.id_format {
            Some(f) => Some(f.clone()),
            None => None,
        },
        None => None,
    };
    match own {
        Some(f) => f,
        None => match &config.defaults.id_format {
            Some(f) => f.clone(),
            None => String::from_str("INV-{year}-{seq:03}"),
        },
    }
}

/// The ID format of new quotes: `[quote].id_format`, else
/// `[defaults].quote_id_format`, else `QUO-{year}-{seq:03}`.
pub open spec fn quote_id_format_spec(config: FolioConfig) -> Seq<char> {
    match config.quote {
        Some(q) => match q.id_format {
            Some(f) => f@,
            None => setting_or(config.defaults.quote_id_format, "QUO-{year}-{seq:03}"@),
        },
        None => setting_or(config.defaults.quote_id_format, "QUO-{year}-{seq:03}"@),
    }
}

pub fn quote_id_format(config: &FolioConfig) -> (r: String)
    ensures
        r@ == quote_id_format_spec(*config),
{
    let own = match &config.quote {
        Some(q) => match &q.id_format {
            Some(f) => Some(f.clone()),
            None => None,
        },
        None => None,
    };
    match own {
        Some(f) => f,
        None => match &config.defaults.quote_id_format {
            Some(f) => f.clone(),
            None => String::from_str("QUO-{year}-{seq:03}"),
        },
    }
}

/// Reads the date of a new document; the error quotes what was typed.
pub fn parse_document_date(text: &str) -> (r: Result<Date, FolioError>)
    ensures
        match r {
            Ok(d) => ymd_parse(text@) == Some(d.days as int) && d.wf(),
            Err(e) => ymd_parse(text@) is None && (e matches FolioError::Other(m)
                && m@ == "invalid date "@ + debug_str(text@) + " — expected YYYY-MM-DD"@),
        },
{
    match parse_ymd(text) {
        Some(d) => Ok(d),
        None => {
            let q = debug_text(text);
            Err(FolioError::Other(concat3("invalid date ", q.as_str(), " — expected YYYY-MM-DD")))
        },
    }
}

/// One line item from what was typed: quantity and rate must be decimals.
pub fn parse_line_item(description: String, quantity: &str, unit: String, rate: &str) -> (r: Result<LineItem, FolioError>)
    ensures
        match r {
            Ok(item) => {
                &&& item.description == description
                &&& opt_pair(Some(item.quantity)) == decimal_parse(quantity@)
                &&& item.unit == Some(unit)
                &&& opt_pair(Some(item.rate)) == decimal_parse(rate@)
                &&& item.quantity.wf() && item.rate.wf()
            },
            Err(e) => (e matches FolioError::Other(m) && if decimal_parse(quantity@) is None {
                m@ == "invalid quantity "@ + debug_str(quantity@)
            } else {
                decimal_parse(rate@) is None && m@ == "invalid rate "@ + debug_str(rate@)
            }),
        },
{
    let q = match parse_decimal(quantity) {
        Some(q) => q,
        None => {
            let t = debug_text(quantity);
            proof {
                reveal_strlit("");
                assert(t@ + ""@ =~= t@);
            }
            return Err(FolioError::Other(concat3("invalid quantity ", t.as_str(), "")));
        },
    };
    let r = match parse_decimal(rate) {
        Some(r) => r,
        None => {
            let t = debug_text(rate);
            proof {
                reveal_strlit("");
                assert(t@ + ""@ =~= t@);
            }
            return Err(FolioError::Other(concat3("invalid rate ", t.as_str(), "")));
        },
    };
    Ok(LineItem { description, quantity: q, unit: Some(unit), rate: r })
}

/// A new document needs at least one line item.
pub fn require_items(items: &Vec<LineItem>) -> (r: Result<(), FolioError>)
    ensures
        r is Err <==> items@.len() == 0,
        r matches Err(e) ==> (e matches FolioError::Other(m)
            && m@ == "no items added — at least one line item is required"@),
{
    if items.len() == 0 {
        Err(FolioError::Other(String::from_str("no items added — at least one line item is required")))
    } else {
        Ok(())
    }
}

/// A fresh invoice: only its ID, client, date and items are set.
pub fn new_invoice(id: String, client: String, date: Date, items: Vec<LineItem>) -> (r: Invoice)
    ensures
        r == (Invoice {
            id, client, date, due: None, currency: None, template: None, primary_color: None,
            tax_rate: None, notes: None, items, sent: None, paid: None, voided: None,
        }),
{
    Invoice {
        id, client, date, due: None, currency: None, template: None, primary_color: None,
        tax_rate: None, notes: None, items, sent: None, paid: None, voided: None,
    }
}

/// A fresh quote: only its ID, client, date and items are set.
pub fn new_quote(id: String, client: String, date: Date, items: Vec<LineItem>) -> (r: Quote)
    ensures
        r == (Quote {
            id, client, date, expires: None, currency: None, template: None, primary_color: None,
            tax_rate: None, notes: None, items, sent: None, accepted: None, declined: None,
        }),
{
    Quote {
        id, client, date, expires: None, currency: None, template: None, primary_color: None,
        tax_rate: None, notes: None, items, sent: None, accepted: None, declined: None,
    }
}

} // verus!
