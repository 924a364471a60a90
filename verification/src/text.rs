//! Character-level string helpers.
//!
//! Strings are handled as sequences of `char`s, which is what `str`'s view
//! is.  `std`'s searching and trimming functions are written here as
//! verified loops with their specifications.
use vstd::prelude::*;

verus! {

broadcast use vstd::string::group_string_axioms;

/// Appends one character, with `String::push`.
///
/// Trusted: `String::push` appends the character to the end.
#[verifier::external_body]
pub(crate) fn push_char(s: &mut String, c: char)
    ensures
        final(s)@ == old(s)@.push(c),
{
    s.push(c);
}

/// The characters of a string.
pub fn chars_of(s: &str) -> (r: Vec<char>)
    ensures
        r@ == s@,
{
    let mut r: Vec<char> = Vec::new();
    for c in it: s.chars()
        invariant
            r@ == it.seq().take(it.index() as int),
            it.seq() == s@,
    {
        r.push(c);
        assert(r@ =~= it.seq().take(it.index() as int + 1));
    }
    r
}


/// The string holding `v[from..to]`.
pub fn string_from(v: &Vec<char>, from: usize, to: usize) -> (r: String)
    requires
        from <= to <= v.len(),
    ensures
        r@ == v@.subrange(from as int, to as int),
{
    let mut r = String::new();
    let mut i = from;
    while i < to
        invariant
            from <= i <= to <= v.len(),
            r@ == v@.subrange(from as int, i as int),
        decreases to - i,
    {
        push_char(&mut r, v[i]);
        i = i + 1;
        assert(r@ =~= v@.subrange(from as int, i as int));
    }
    r
}

/// The string holding all of `v`.
pub fn string_of(v: &Vec<char>) -> (r: String)
    ensures
        r@ == v@,
{
    let r = string_from(v, 0, v.len());
    assert(v@.subrange(0, v@.len() as int) =~= v@);
    r
}

/// Appends `v[from..to]` to `out`.
pub fn extend_from(out: &mut Vec<char>, v: &Vec<char>, from: usize, to: usize)
    requires
        from <= to <= v.len(),
    ensures
        final(out)@ == old(out)@ + v@.subrange(from as int, to as int),
{
    let mut i = from;
    while i < to
        invariant
            from <= i <= to <= v.len(),
            out@ == old(out)@ + v@.subrange(from as int, i as int),
        decreases to - i,
    {
        out.push(v[i]);
        i = i + 1;
        assert(out@ =~= old(out)@ + v@.subrange(from as int, i as int));
    }
}

/// `pat` occurs in `s` at position `i`.
pub open spec fn matches_at(s: Seq<char>, pat: Seq<char>, i: int) -> bool {
    0 <= i && i + pat.len() <= s.len() && s.subrange(i, i + pat.len()) == pat
}

/// The first position at or after `from` where `pat` occurs in `s`, as
/// `str::find` reports it.
pub open spec fn first_match(s: Seq<char>, pat: Seq<char>, from: int) -> Option<int>
    decreases s.len() - from,
{
    if from < 0 || from + pat.len() > s.len() {
        None
    } else if matches_at(s, pat, from) {
        Some(from)
    } else if from >= s.len() {
        None
    } else {
        first_match(s, pat, from + 1)
    }
}

/// Does `pat` occur in `s` at position `i`?
pub fn is_match_at(s: &Vec<char>, pat: &Vec<char>, i: usize) -> (r: bool)
    ensures
        r == matches_at(s@, pat@, i as int),
{
    if i > s.len() || pat.len() > s.len() - i {
        return false;
    }
    let mut k: usize = 0;
    while k < pat.len()
        invariant
            i + pat.len() <= s.len(),
            0 <= k <= pat.len(),
            forall|j: int| 0 <= j < k ==> s@[i + j] == pat@[j],
        decreases pat.len() - k,
    {
        if s[i + k] != pat[k] {
            assert(s@.subrange(i as int, i + pat.len())[k as int] != pat@[k as int]);
            return false;
        }
        k = k + 1;
    }
    assert(s@.subrange(i as int, i + pat.len()) =~= pat@);
    true
}

/// The first position at or after `from` where `pat` occurs in `s`.
pub fn find_from(s: &Vec<char>, pat: &Vec<char>, from: usize) -> (r: Option<usize>)
    ensures
        match r {
            Some(i) => first_match(s@, pat@, from as int) == Some(i as int),
            None => first_match(s@, pat@, from as int) is None,
        },
{
    let mut i = from;
    loop
        invariant
            from <= i,
            first_match(s@, pat@, from as int) == first_match(s@, pat@, i as int),
        decreases s.len() + 1 - i,
    {
        if i > s.len() || pat.len() > s.len() - i {
            return None;
        }
        if is_match_at(s, pat, i) {
            return Some(i);
        }
        if i == s.len() {
            return None;
        }
        i = i + 1;
    }
}

/// `s[from..]` with every non-overlapping occurrence of `pat` (searched left
/// to right) replaced by `rep`, as `str::replace` does.
pub open spec fn replace_from(s: Seq<char>, pat: Seq<char>, rep: Seq<char>, from: int) -> Seq<char>
    decreases s.len() - from,
{
    if from < 0 || from > s.len() || pat.len() == 0 {
        s.subrange(from, s.len() as int)
    } else {
        match first_match(s, pat, from) {
            Some(i) => if from <= i && i + pat.len() <= s.len() {
                s.subrange(from, i) + rep + replace_from(s, pat, rep, i + pat.len())
            } else {
                s.subrange(from, s.len() as int)
            },
            None => s.subrange(from, s.len() as int),
        }
    }
}

/// `s` with every occurrence of `pat` replaced by `rep`.
pub open spec fn replace_all(s: Seq<char>, pat: Seq<char>, rep: Seq<char>) -> Seq<char> {
    replace_from(s, pat, rep, 0)
}

pub proof fn lemma_first_match_bounds(s: Seq<char>, pat: Seq<char>, from: int)
    ensures
        first_match(s, pat, from) matches Some(i) ==> from <= i && matches_at(s, pat, i),
    decreases s.len() - from,
{
    if !(from < 0 || from + pat.len() > s.len()) && !matches_at(s, pat, from) && from < s.len() {
        lemma_first_match_bounds(s, pat, from + 1);
    }
}

/// `s` with every occurrence of the nonempty `pat` replaced by `rep`.
pub fn replace(s: &Vec<char>, pat: &Vec<char>, rep: &Vec<char>) -> (r: Vec<char>)
    requires
        pat.len() > 0,
    ensures
        r@ == replace_all(s@, pat@, rep@),
{
    let mut out: Vec<char> = Vec::new();
    let mut pos: usize = 0;
    loop
        invariant
            pat.len() > 0,
            pos <= s.len(),
            out@ + replace_from(s@, pat@, rep@, pos as int) == replace_all(s@, pat@, rep@),
        decreases s.len() - pos,
    {
        proof {
            lemma_first_match_bounds(s@, pat@, pos as int);
        }
        match find_from(s, pat, pos) {
            Some(i) => {
                let ghost before = out@;
                extend_from(&mut out, s, pos, i);
                extend_from(&mut out, rep, 0, rep.len());
                assert(rep@.subrange(0, rep@.len() as int) =~= rep@);
                assert(out@ == before + s@.subrange(pos as int, i as int) + rep@);
                assert(out@ + replace_from(s@, pat@, rep@, i + pat.len()) =~= before + replace_from(s@, pat@, rep@, pos as int));
                pos = i + pat.len();
            },
            None => {
                extend_from(&mut out, s, pos, s.len());
                return out;
            },
        }
    }
}

/// The decimal digits of `n`.
pub open spec fn digits(n: nat) -> Seq<char>
    decreases n,
{
    if n < 10 {
        seq![digit_char(n)]
    } else {
        digits(n / 10).push(digit_char(n % 10))
    }
}

/// The character of a decimal digit.
pub open spec fn digit_char(d: nat) -> char {
    if d == 0 { '0' } else if d == 1 { '1' } else if d == 2 { '2' } else if d == 3 { '3' }
    else if d == 4 { '4' } else if d == 5 { '5' } else if d == 6 { '6' } else if d == 7 { '7' }
    else if d == 8 { '8' } else { '9' }
}

fn exec_digit_char(d: u64) -> (c: char)
    requires
        d < 10,
    ensures
        c == digit_char(d as nat),
{
    if d == 0 { '0' } else if d == 1 { '1' } else if d == 2 { '2' } else if d == 3 { '3' }
    else if d == 4 { '4' } else if d == 5 { '5' } else if d == 6 { '6' } else if d == 7 { '7' }
    else if d == 8 { '8' } else { '9' }
}

/// Appends the decimal digits of `n`.
pub fn push_digits(out: &mut Vec<char>, n: u64)
    ensures
        final(out)@ == old(out)@ + digits(n as nat),
    decreases n,
{
    if n >= 10 {
        push_digits(out, n / 10);
    }
    out.push(exec_digit_char(n % 10));
    assert(final(out)@ =~= old(out)@ + digits(n as nat));
}

/// How `i32::to_string` writes `n`: an optional minus sign, then the digits.
pub open spec fn int_text(n: int) -> Seq<char> {
    if n < 0 {
        seq!['-'] + digits((-n) as nat)
    } else {
        digits(n as nat)
    }
}

/// The decimal text of an `i32`.
pub fn i32_text(n: i32) -> (r: Vec<char>)
    ensures
        r@ == int_text(n as int),
{
    let mut r: Vec<char> = Vec::new();
    if n < 0 {
        r.push('-');
        let m: u64 = (0i64 - (n as i64)) as u64;
        push_digits(&mut r, m);
    } else {
        push_digits(&mut r, n as u64);
    }
    r
}

/// The decimal text of a `u32`.
pub fn u32_text(n: u32) -> (r: Vec<char>)
    ensures
        r@ == digits(n as nat),
{
    let mut r: Vec<char> = Vec::new();
    push_digits(&mut r, n as u64);
    assert(r@ =~= digits(n as nat));
    r
}

/// The number of bytes UTF-8 needs for one character.
pub open spec fn utf8_width(c: char) -> nat {
    if (c as u32) < 0x80 {
        1
    } else if (c as u32) < 0x800 {
        2
    } else if (c as u32) < 0x10000 {
        3
    } else {
        4
    }
}

/// The number of bytes of the UTF-8 encoding of `s` (what `str::len` reports).
pub open spec fn utf8_len(s: Seq<char>) -> nat
    decreases s.len(),
{
    if s.len() == 0 {
        0
    } else {
        utf8_len(s.drop_last()) + utf8_width(s.last())
    }
}

/// The UTF-8 length of `s[from..to]`, if it fits in a `usize`.
pub fn utf8_len_of(s: &Vec<char>, from: usize, to: usize) -> (r: usize)
    requires
        from <= to <= s.len(),
        s.len() <= usize::MAX / 4,
    ensures
        r == utf8_len(s@.subrange(from as int, to as int)),
{
    let mut n: usize = 0;
    let mut i = from;
    while i < to
        invariant
            from <= i <= to <= s.len(),
            n == utf8_len(s@.subrange(from as int, i as int)),
            n <= 4 * (i - from),
            s.len() <= usize::MAX / 4,
        decreases to - i,
    {
        let c: u32 = s[i] as u32;
        let w: usize = if c < 0x80 { 1 } else if c < 0x800 { 2 } else if c < 0x10000 { 3 } else { 4 };
        assert(s@.subrange(from as int, i + 1).drop_last() =~= s@.subrange(from as int, i as int));
        n = n + w;
        i = i + 1;
    }
    n
}


/// An optional string, taken by its characters.
pub open spec fn opt_view(o: Option<String>) -> Option<Seq<char>> {
    match o {
        Some(s) => Some(s@),
        None => None,
    }
}

/// The value of a string of ASCII digits.
pub open spec fn digits_value(d: Seq<char>) -> nat
    decreases d.len(),
{
    if d.len() == 0 {
        0
    } else {
        digits_value(d.drop_last()) * 10 + ((d.last() as u32) - ('0' as u32)) as nat
    }
}

/// The digits of an unsigned number: the text after an optional `+`.
pub open spec fn unsigned_digits(s: Seq<char>) -> Seq<char> {
    if s.len() > 0 && s[0] == '+' {
        s.drop_first()
    } else {
        s
    }
}

/// Every character is an ASCII digit.
pub open spec fn all_digits(d: Seq<char>) -> bool {
    forall|i: int| 0 <= i < d.len() ==> is_ascii_digit(#[trigger] d[i])
}

pub open spec fn is_ascii_digit(c: char) -> bool {
    '0' <= c && c <= '9'
}

/// `str::parse::<u32>`: an optional `+`, then one or more ASCII digits
/// whose value fits in a `u32`.
pub open spec fn parse_u32_spec(s: Seq<char>) -> Option<u32> {
    let d = unsigned_digits(s);
    if d.len() == 0 || !all_digits(d) {
        None
    } else if digits_value(d) > u32::MAX {
        None
    } else {
        Some(digits_value(d) as u32)
    }
}

proof fn lemma_digits_value_grows(d: Seq<char>, k: int)
    requires
        0 <= k <= d.len(),
        forall|i: int| 0 <= i < d.len() ==> is_ascii_digit(#[trigger] d[i]),
    ensures
        digits_value(d.take(k)) <= digits_value(d),
    decreases d.len() - k,
{
    if k < d.len() {
        lemma_digits_value_grows(d, k + 1);
        assert(d.take(k + 1).drop_last() =~= d.take(k));
    } else {
        assert(d.take(k) =~= d);
    }
}

/// The value of the digits `s[from..]`, if they are one or more ASCII
/// digits whose value is at most `limit`.
pub open spec fn bounded_digits(d: Seq<char>, limit: nat) -> Option<nat> {
    if d.len() == 0 || !all_digits(d) || digits_value(d) > limit {
        None
    } else {
        Some(digits_value(d))
    }
}

/// Reads the digits `s[from..]` as a number no larger than `limit`.
pub fn parse_digits(s: &Vec<char>, from: usize, limit: u64) -> (r: Option<u64>)
    requires
        from <= s.len(),
        limit <= u32::MAX as u64 + 1,
    ensures
        match r {
            Some(v) => bounded_digits(s@.subrange(from as int, s@.len() as int), limit as nat) == Some(v as nat),
            None => bounded_digits(s@.subrange(from as int, s@.len() as int), limit as nat) is None,
        },
{
    let ghost d = s@.subrange(from as int, s@.len() as int);
    if from == s.len() {
        return None;
    }
    let mut i = from;
    let mut value: u64 = 0;
    while i < s.len()
        invariant
            from <= i <= s.len(),
            d == s@.subrange(from as int, s@.len() as int),
            d.len() > 0,
            limit <= u32::MAX as u64 + 1,
            forall|k: int| 0 <= k < i - from ==> is_ascii_digit(#[trigger] d[k]),
            value == digits_value(d.take(i - from)),
            value <= limit,
        decreases s.len() - i,
    {
        let c = s[i];
        if !('0' <= c && c <= '9') {
            assert(d[i - from] == c);
            assert(!is_ascii_digit(d[i - from]));
            assert(!all_digits(d));
            return None;
        }
        let digit: u64 = (c as u32 - '0' as u32) as u64;
        assert(d.take(i - from + 1).drop_last() =~= d.take(i - from));
        assert(d.take(i - from + 1).last() == c);
        let next = value * 10 + digit;
        if next > limit {
            proof {
                assert(digits_value(d.take(i - from + 1)) == next);
                if all_digits(d) {
                    lemma_digits_value_grows(d, i - from + 1);
                }
            }
            return None;
        }
        value = next;
        i = i + 1;
    }
    assert(d.take(d.len() as int) =~= d);
    Some(value)
}

/// `str::parse::<u32>` on the characters `s[from..]`.
pub fn parse_u32(s: &Vec<char>, from: usize) -> (r: Option<u32>)
    requires
        from <= s.len(),
    ensures
        r == parse_u32_spec(s@.subrange(from as int, s@.len() as int)),
{
    let ghost t = s@.subrange(from as int, s@.len() as int);
    let start = if from < s.len() && s[from] == '+' { from + 1 } else { from };
    assert(s@.subrange(start as int, s@.len() as int) =~= unsigned_digits(t));
    match parse_digits(s, start, 4294967295) {
        Some(v) => Some(v as u32),
        None => None,
    }
}

/// `str::parse::<i32>`: an optional sign, then one or more ASCII digits
/// whose value fits in an `i32`.
pub open spec fn parse_i32_spec(s: Seq<char>) -> Option<i32> {
    let neg = s.len() > 0 && s[0] == '-';
    let d = if s.len() > 0 && (s[0] == '+' || s[0] == '-') { s.drop_first() } else { s };
    if d.len() == 0 || !all_digits(d) {
        None
    } else {
        let v = digits_value(d) as int;
        let value = if neg { -v } else { v };
        if i32::MIN <= value <= i32::MAX {
            Some(value as i32)
        } else {
            None
        }
    }
}

/// `str::parse::<i32>` on the characters of `s`.
pub fn parse_i32(s: &Vec<char>) -> (r: Option<i32>)
    ensures
        r == parse_i32_spec(s@),
{
    let neg = s.len() > 0 && s[0] == '-';
    let start: usize = if s.len() > 0 && (s[0] == '+' || s[0] == '-') { 1 } else { 0 };
    assert(s@.subrange(start as int, s@.len() as int) =~= (if s@.len() > 0 && (s@[0] == '+' || s@[0] == '-') {
        s@.drop_first()
    } else {
        s@
    }));
    match parse_digits(s, start, 2147483648) {
        Some(v) => {
            if neg {
                Some((0i64 - v as i64) as i32)
            } else if v <= 2147483647 {
                Some(v as i32)
            } else {
                None
            }
        },
        None => None,
    }
}


/// Do two strings hold the same characters?
pub fn same_text(a: &str, b: &str) -> (r: bool)
    ensures
        r == (a@ == b@),
{
    let x = String::from_str(a);
    let y = String::from_str(b);
    x.eq(&y)
}

/// `a`, `b` and `c` joined.
pub fn concat3(a: &str, b: &str, c: &str) -> (r: String)
    ensures
        r@ == a@ + b@ + c@,
{
    let mut r = String::from_str(a);
    r.append(b);
    r.append(c);
    r
}

/// The text `{:?}` writes for a string: quoted, with escapes.
pub uninterp spec fn debug_str(s: Seq<char>) -> Seq<char>;

/// The string in `{:?}` form, as shown in error messages.
///
/// Trusted: formats with `<str as Debug>::fmt`; the text is named by
/// [`debug_str`].
#[verifier::external_body]
pub(crate) fn debug_text(s: &str) -> (r: String)
    ensures
        r@ == debug_str(s@),
{
    format!("{:?}", s)
}

/// The text `char::to_uppercase` yields for `c` (one or more characters).
pub uninterp spec fn uppercase_text(c: char) -> Seq<char>;

/// The uppercase form of a character, as a string.
///
/// Trusted: collects `char::to_uppercase`; the text is named by
/// [`uppercase_text`].
#[verifier::external_body]
pub(crate) fn uppercase_of(c: char) -> (r: String)
    ensures
        r@ == uppercase_text(c),
{
    c.to_uppercase().to_string()
}

/// The text `str::to_lowercase` yields for `s`.
pub uninterp spec fn lowercase_text(s: Seq<char>) -> Seq<char>;

/// The string in lower case.
///
/// Trusted: calls `str::to_lowercase`; the text is named by [`lowercase_text`].
#[verifier::external_body]
pub(crate) fn lowercase_of(s: &str) -> (r: String)
    ensures
        r@ == lowercase_text(s@),
{
    s.to_lowercase()
}

/// `a < b` in the order of `str`: lexicographic by code point, which is
/// the byte order of UTF-8; a proper prefix comes first.
pub open spec fn text_lt(a: Seq<char>, b: Seq<char>) -> bool
    decreases a.len(),
{
    if a.len() == 0 {
        b.len() > 0
    } else if b.len() == 0 {
        false
    } else if a[0] != b[0] {
        (a[0] as u32) < (b[0] as u32)
    } else {
        text_lt(a.drop_first(), b.drop_first())
    }
}

/// Nothing comes before itself.
pub proof fn lemma_text_lt_irreflexive(a: Seq<char>)
    ensures
        !text_lt(a, a),
    decreases a.len(),
{
    if a.len() > 0 {
        lemma_text_lt_irreflexive(a.drop_first());
    }
}

/// The order is transitive.
pub proof fn lemma_text_lt_transitive(a: Seq<char>, b: Seq<char>, c: Seq<char>)
    requires
        text_lt(a, b),
        text_lt(b, c),
    ensures
        text_lt(a, c),
    decreases a.len(),
{
    if a.len() > 0 && b.len() > 0 && c.len() > 0 && a[0] == b[0] && b[0] == c[0] {
        lemma_text_lt_transitive(a.drop_first(), b.drop_first(), c.drop_first());
    }
}

/// Every name is ordered no later than the ones after it.
pub open spec fn names_sorted(s: Seq<Seq<char>>) -> bool {
    forall|i: int, j: int| 0 <= i < j < s.len() ==> !text_lt(#[trigger] s[j], #[trigger] s[i])
}

/// Does `a` come strictly before `b`?
pub fn text_less(a: &str, b: &str) -> (r: bool)
    ensures
        r == text_lt(a@, b@),
{
    let x = chars_of(a);
    let y = chars_of(b);
    let mut i: usize = 0;
    assert(x@.skip(0) =~= x@ && y@.skip(0) =~= y@);
    while i < x.len() && i < y.len() && x[i] == y[i]
        invariant
            i <= x.len(),
            i <= y.len(),
            text_lt(a@, b@) == text_lt(x@.skip(i as int), y@.skip(i as int)),
            x@ == a@,
            y@ == b@,
        decreases x.len() - i,
    {
        assert(x@.skip(i as int).drop_first() =~= x@.skip(i + 1));
        assert(y@.skip(i as int).drop_first() =~= y@.skip(i + 1));
        i = i + 1;
    }
    if i == x.len() {
        i < y.len()
    } else if i == y.len() {
        false
    } else {
        (x[i] as u32) < (y[i] as u32)
    }
}

/// Sorts names in `str` order, as `slice::sort` on `String`s does.
pub fn sort_names(names: Vec<String>) -> (r: Vec<String>)
    ensures
        names_sorted(r@.map_values(|s: String| s@)),
        r@.map_values(|s: String| s@).to_multiset() == names@.map_values(|s: String| s@).to_multiset(),
{
    let ghost all = names@.map_values(|s: String| s@);
    let mut out: Vec<String> = Vec::new();
    let mut i: usize = 0;
    assert(all.take(0) =~= Seq::<Seq<char>>::empty());
    assert(out@.map_values(|s: String| s@) =~= Seq::<Seq<char>>::empty());
    while i < names.len()
        invariant
            0 <= i <= names.len(),
            all == names@.map_values(|s: String| s@),
            names_sorted(out@.map_values(|s: String| s@)),
            out@.map_values(|s: String| s@).to_multiset() == all.take(i as int).to_multiset(),
        decreases names.len() - i,
    {
        let x = &names[i];
        let ghost cur = out@.map_values(|s: String| s@);
        let mut p: usize = 0;
        while p < out.len() && !text_less(x.as_str(), out[p].as_str())
            invariant
                0 <= p <= out.len(),
                cur == out@.map_values(|s: String| s@),
                forall|k: int| 0 <= k < p ==> !text_lt(x@, #[trigger] cur[k]),
            decreases out.len() - p,
        {
            p = p + 1;
        }
        proof {
            if p < out.len() {
                assert(text_lt(x@, cur[p as int]));
            }
        }
        out.insert(p, x.clone());
        let ghost next = out@.map_values(|s: String| s@);
        proof {
            assert(next =~= cur.insert(p as int, x@));
            assert forall|a: int, b: int| 0 <= a < b < next.len() implies !text_lt(#[trigger] next[b], #[trigger] next[a]) by {
                if b < p {
                    assert(next[a] == cur[a] && next[b] == cur[b]);
                } else if a > p {
                    assert(next[a] == cur[a - 1] && next[b] == cur[b - 1]);
                } else if a == p {
                    // x comes before every later name.
                    assert(next[b] == cur[b - 1]);
                    if text_lt(cur[b - 1], x@) {
                        if b - 1 == p {
                            lemma_text_lt_transitive(cur[b - 1], x@, cur[p as int]);
                            lemma_text_lt_irreflexive(cur[p as int]);
                        } else {
                            lemma_text_lt_transitive(cur[b - 1], x@, cur[p as int]);
                        }
                    }
                } else if b == p {
                    assert(next[a] == cur[a]);
                } else {
                    assert(next[a] == cur[a] && next[b] == cur[b - 1]);
                }
            }
            vstd::seq_lib::to_multiset_insert(cur, p as int, x@);
            assert(all.take(i + 1) =~= all.take(i as int).push(all[i as int]));
            vstd::seq_lib::to_multiset_build(all.take(i as int), all[i as int]);
        }
        i = i + 1;
    }
    assert(all.take(names.len() as int) =~= all);
    out
}

} // verus!
