//! Character-level text helpers shared by the rest of the library.
//!
//! Strings are modelled by their `Seq<char>` views; every helper here states
//! its result over those views.
use vstd::prelude::*;
use vstd::string::*;

verus! {

/// Whether `c` carries the Unicode `White_Space` property (the set that
/// `char::is_whitespace` documents): U+0009 to U+000D, U+0020, U+0085, U+00A0, U+1680,
/// U+2000 to U+200A, U+2028, U+2029, U+202F, U+205F and U+3000.
pub open spec fn white_space(c: char) -> bool {
    let n = c as u32;
    ||| 0x9 <= n <= 0xd
    ||| n == 0x20
    ||| n == 0x85
    ||| n == 0xa0
    ||| n == 0x1680
    ||| 0x2000 <= n <= 0x200a
    ||| n == 0x2028
    ||| n == 0x2029
    ||| n == 0x202f
    ||| n == 0x205f
    ||| n == 0x3000
}

/// Whether `c` is whitespace, as `char::is_whitespace` answers.
pub(crate) fn is_whitespace(c: char) -> (res: bool)
    ensures
        res == white_space(c),
{
    let n = c as u32;
    (0x9 <= n && n <= 0xd) || n == 0x20 || n == 0x85 || n == 0xa0 || n == 0x1680 || (0x2000 <= n
        && n <= 0x200a) || n == 0x2028 || n == 0x2029 || n == 0x202f || n == 0x205f || n == 0x3000
}

/// The characters of `s`, in order.
pub(crate) fn chars_of(s: &str) -> (res: Vec<char>)
    ensures
        res@ == s@,
{
    broadcast use vstd::string::group_string_axioms;

    let mut out: Vec<char> = Vec::new();
    for c in it: s.chars()
        invariant
            it.seq() == s@,
            out@ == it.seq().take(it.index() as int),
    {
        out.push(c);
    }
    out
}

/// Collects characters into a `String`, in order.
pub(crate) fn string_from_chars(chars: &[char]) -> (res: String)
    ensures
        res@ == chars@,
{
    let mut out = String::new();
    let mut i: usize = 0;
    while i < chars.len()
        invariant
            i <= chars@.len(),
            out@ == chars@.take(i as int),
        decreases chars@.len() - i,
    {
        push_char(&mut out, chars[i]);
        assert(chars@.take(i + 1) == chars@.take(i as int).push(chars@[i as int]));
        i = i + 1;
    }
    assert(chars@.take(chars@.len() as int) == chars@);
    out
}

/// Appends one character to a `String` (`String::push`).
#[verifier::external_body]
pub(crate) fn push_char(s: &mut String, c: char)
    ensures
        final(s)@ == old(s)@.push(c),
{
    s.push(c)
}

/// The copy of `s` with leading whitespace removed.
pub open spec fn trim_start_spec(s: Seq<char>) -> Seq<char>
    decreases s.len(),
{
    if s.len() > 0 && white_space(s[0]) {
        trim_start_spec(s.drop_first())
    } else {
        s
    }
}

/// The copy of `s` with trailing whitespace removed.
pub open spec fn trim_end_spec(s: Seq<char>) -> Seq<char>
    decreases s.len(),
{
    if s.len() > 0 && white_space(s.last()) {
        trim_end_spec(s.drop_last())
    } else {
        s
    }
}

/// `str::trim`: leading and trailing whitespace removed.
pub open spec fn trim_spec(s: Seq<char>) -> Seq<char> {
    trim_end_spec(trim_start_spec(s))
}

/// The copy of `s` with every trailing occurrence of `c` removed.
pub open spec fn trim_end_char_spec(s: Seq<char>, c: char) -> Seq<char>
    decreases s.len(),
{
    if s.len() > 0 && s.last() == c {
        trim_end_char_spec(s.drop_last(), c)
    } else {
        s
    }
}

/// Builds a `String` from a borrowed string.
pub fn owned(s: &str) -> (res: String)
    ensures
        res@ == s@,
{
    String::from_str(s)
}

/// Builds a `String` from the characters `chars[from..to]`.
pub fn collect_range(chars: &Vec<char>, from: usize, to: usize) -> (res: String)
    requires
        from <= to <= chars@.len(),
    ensures
        res@ == chars@.subrange(from as int, to as int),
{
    let mut out: Vec<char> = Vec::new();
    let mut k = from;
    while k < to
        invariant
            from <= k <= to <= chars@.len(),
            out@ == chars@.subrange(from as int, k as int),
        decreases to - k,
    {
        out.push(chars[k]);
        assert(chars@.subrange(from as int, k + 1) == chars@.subrange(from as int, k as int).push(
            chars@[k as int],
        ));
        k = k + 1;
    }
    string_from_chars(out.as_slice())
}

/// `str::trim`.
pub fn trim(s: &str) -> (res: String)
    ensures
        res@ == trim_spec(s@),
{
    let chars = chars_of(s);
    let n = chars.len();
    let mut i: usize = 0;
    assert(s@.subrange(0, n as int) == s@);
    while i < n && is_whitespace(chars[i])
        invariant
            i <= n == chars@.len(),
            chars@ == s@,
            trim_start_spec(s@) == trim_start_spec(s@.subrange(i as int, n as int)),
        decreases n - i,
    {
        let ghost sub = s@.subrange(i as int, n as int);
        assert(sub.drop_first() == s@.subrange(i + 1, n as int));
        i = i + 1;
    }
    assert(trim_start_spec(s@) == s@.subrange(i as int, n as int));
    let mut j: usize = n;
    while j > i && is_whitespace(chars[j - 1])
        invariant
            i <= j <= n == chars@.len(),
            chars@ == s@,
            trim_spec(s@) == trim_end_spec(s@.subrange(i as int, j as int)),
        decreases j,
    {
        let ghost sub = s@.subrange(i as int, j as int);
        assert(sub.drop_last() == s@.subrange(i as int, j - 1));
        j = j - 1;
    }
    collect_range(&chars, i, j)
}

/// `str::trim_end_matches` with a single character pattern.
pub fn trim_end_char(s: &str, c: char) -> (res: String)
    ensures
        res@ == trim_end_char_spec(s@, c),
{
    let chars = chars_of(s);
    let mut j: usize = chars.len();
    assert(s@.subrange(0, j as int) == s@);
    while j > 0 && chars[j - 1] == c
        invariant
            j <= chars@.len(),
            chars@ == s@,
            trim_end_char_spec(s@, c) == trim_end_char_spec(s@.subrange(0, j as int), c),
        decreases j,
    {
        let ghost sub = s@.subrange(0, j as int);
        assert(sub.drop_last() == s@.subrange(0, j - 1));
        j = j - 1;
    }
    collect_range(&chars, 0, j)
}


/// The views of a sequence of strings.
pub open spec fn views(v: Seq<String>) -> Seq<Seq<char>> {
    v.map_values(|t: String| t@)
}

/// Drops one trailing carriage return, as `str::lines` does for a line ended by `\n`.
pub open spec fn strip_cr(line: Seq<char>) -> Seq<char> {
    if line.len() > 0 && line.last() == '\r' {
        line.drop_last()
    } else {
        line
    }
}

/// Scans `s` left to right: the lines finished by a `\n` so far and the pending partial line.
pub open spec fn line_scan(s: Seq<char>) -> (Seq<Seq<char>>, Seq<char>)
    decreases s.len(),
{
    if s.len() == 0 {
        (Seq::empty(), Seq::empty())
    } else {
        let prev = line_scan(s.drop_last());
        if s.last() == '\n' {
            (prev.0.push(strip_cr(prev.1)), Seq::empty())
        } else {
            (prev.0, prev.1.push(s.last()))
        }
    }
}

/// `str::lines`: the lines of `s` without their `\n` / `\r\n` terminators; a final
/// line ending is optional and an empty remainder yields no line.
pub open spec fn lines_spec(s: Seq<char>) -> Seq<Seq<char>> {
    let scan = line_scan(s);
    if scan.1.len() == 0 {
        scan.0
    } else {
        scan.0.push(scan.1)
    }
}

/// The parts concatenated with `sep` between neighbours (`[T]::join`).
pub open spec fn join_spec(parts: Seq<Seq<char>>, sep: Seq<char>) -> Seq<char>
    decreases parts.len(),
{
    if parts.len() == 0 {
        Seq::empty()
    } else if parts.len() == 1 {
        parts[0]
    } else {
        join_spec(parts.drop_last(), sep) + sep + parts.last()
    }
}

/// `str::lines`.
pub fn lines(s: &str) -> (res: Vec<String>)
    ensures
        views(res@) == lines_spec(s@),
{
    let chars = chars_of(s);
    let n = chars.len();
    let mut done: Vec<String> = Vec::new();
    let mut cur: Vec<char> = Vec::new();
    let mut i: usize = 0;
    while i < n
        invariant
            i <= n == chars@.len(),
            chars@ == s@,
            views(done@) == line_scan(s@.take(i as int)).0,
            cur@ == line_scan(s@.take(i as int)).1,
        decreases n - i,
    {
        let c = chars[i];
        assert(s@.take(i + 1).drop_last() == s@.take(i as int));
        if c == '\n' {
            let line = if cur.len() > 0 && cur[cur.len() - 1] == '\r' {
                collect_range(&cur, 0, cur.len() - 1)
            } else {
                collect_range(&cur, 0, cur.len())
            };
            assert(cur@.subrange(0, cur@.len() as int) == cur@);
            assert(cur@.drop_last() == cur@.subrange(0, cur@.len() - 1));
            done.push(line);
            cur = Vec::new();
        } else {
            cur.push(c);
        }
        i = i + 1;
    }
    assert(s@.take(n as int) == s@);
    if cur.len() > 0 {
        let last = collect_range(&cur, 0, cur.len());
        assert(cur@.subrange(0, cur@.len() as int) == cur@);
        done.push(last);
    }
    done
}

/// `[String]::join(sep)`.
pub fn join(parts: &Vec<String>, sep: &str) -> (res: String)
    ensures
        res@ == join_spec(views(parts@), sep@),
{
    let mut out = String::new();
    let mut i: usize = 0;
    while i < parts.len()
        invariant
            i <= parts@.len(),
            out@ == join_spec(views(parts@.take(i as int)), sep@),
        decreases parts@.len() - i,
    {
        assert(views(parts@.take(i + 1)).drop_last() == views(parts@.take(i as int)));
        if i > 0 {
            out.append(sep);
        }
        out.append(parts[i].as_str());
        i = i + 1;
    }
    assert(parts@.take(parts@.len() as int) == parts@);
    out
}

/// `true` / `false`, as `bool`'s `Display` writes them.
pub open spec fn bool_text(b: bool) -> Seq<char> {
    if b {
        seq!['t', 'r', 'u', 'e']
    } else {
        seq!['f', 'a', 'l', 's', 'e']
    }
}

/// `bool`'s `Display`.
pub fn bool_string(b: bool) -> (res: String)
    ensures
        res@ == bool_text(b),
{
    let mut out = String::new();
    if b {
        push_char(&mut out, 't');
        push_char(&mut out, 'r');
        push_char(&mut out, 'u');
        push_char(&mut out, 'e');
    } else {
        push_char(&mut out, 'f');
        push_char(&mut out, 'a');
        push_char(&mut out, 'l');
        push_char(&mut out, 's');
        push_char(&mut out, 'e');
    }
    out
}

/// The ASCII digit for `d`.
pub open spec fn digit_of(d: int) -> char {
    if d == 0 { '0' }
    else if d == 1 { '1' }
    else if d == 2 { '2' }
    else if d == 3 { '3' }
    else if d == 4 { '4' }
    else if d == 5 { '5' }
    else if d == 6 { '6' }
    else if d == 7 { '7' }
    else if d == 8 { '8' }
    else { '9' }
}

/// The decimal digits of `n`, most significant first, without leading zeros.
pub open spec fn decimal_spec(n: nat) -> Seq<char>
    decreases n,
{
    if n < 10 {
        seq![digit_of(n as int)]
    } else {
        decimal_spec(n / 10).push(digit_of((n % 10) as int))
    }
}

/// The ASCII digit for `d`.
pub fn digit_char(d: u64) -> (c: char)
    requires
        d < 10,
    ensures
        c == digit_of(d as int),
{
    if d == 0 { '0' }
    else if d == 1 { '1' }
    else if d == 2 { '2' }
    else if d == 3 { '3' }
    else if d == 4 { '4' }
    else if d == 5 { '5' }
    else if d == 6 { '6' }
    else if d == 7 { '7' }
    else if d == 8 { '8' }
    else { '9' }
}

/// Decimal text of an unsigned number, as its `Display` writes it.
pub fn decimal(n: u64) -> (res: String)
    ensures
        res@ == decimal_spec(n as nat),
    decreases n,
{
    if n < 10 {
        let mut out = String::new();
        push_char(&mut out, digit_char(n));
        out
    } else {
        let mut out = decimal(n / 10);
        push_char(&mut out, digit_char(n % 10));
        out
    }
}

/// Decimal text of a 128-bit unsigned number.
pub fn decimal_u128(n: u128) -> (res: String)
    ensures
        res@ == decimal_spec(n as nat),
    decreases n,
{
    if n < 10 {
        let mut out = String::new();
        push_char(&mut out, digit_char(n as u64));
        out
    } else {
        let mut out = decimal_u128(n / 10);
        push_char(&mut out, digit_char((n % 10) as u64));
        out
    }
}

/// Whether `c` is one of `0`..=`9`.
pub open spec fn is_digit(c: char) -> bool {
    '0' <= c <= '9'
}

/// The numeric value of the decimal digits `s`.
pub open spec fn digits_value(s: Seq<char>) -> int
    decreases s.len(),
{
    if s.len() == 0 {
        0
    } else {
        digits_value(s.drop_last()) * 10 + (s.last() as int - '0' as int)
    }
}

/// Whether every character of `t` is an ASCII digit.
pub open spec fn all_digits(t: Seq<char>) -> bool {
    forall|k: int| 0 <= k < t.len() ==> is_digit(#[trigger] t[k])
}

/// The part of `s` after an optional leading `+` or `-`.
pub open spec fn unsigned_part(s: Seq<char>) -> Seq<char> {
    if s.len() > 0 && (s[0] == '-' || s[0] == '+') {
        s.drop_first()
    } else {
        s
    }
}

/// The value written by `s`, sign included (meaningful when the unsigned part is all digits).
pub open spec fn signed_value(s: Seq<char>) -> int {
    if s.len() > 0 && s[0] == '-' {
        -digits_value(unsigned_part(s))
    } else {
        digits_value(unsigned_part(s))
    }
}

/// `str::parse::<i64>`: an optional `+` or `-` followed by at least one ASCII digit,
/// with values outside `i64` refused.
pub open spec fn parse_i64_spec(s: Seq<char>) -> Option<i64> {
    if unsigned_part(s).len() == 0 || !all_digits(unsigned_part(s)) {
        None
    } else if i64::MIN <= signed_value(s) <= i64::MAX {
        Some(signed_value(s) as i64)
    } else {
        None
    }
}

proof fn lemma_digits_value_grows(s: Seq<char>, k: int)
    requires
        0 <= k <= s.len(),
        forall|j: int| 0 <= j < s.len() ==> is_digit(#[trigger] s[j]),
    ensures
        digits_value(s.take(k)) <= digits_value(s),
        0 <= digits_value(s.take(k)),
    decreases s.len() - k,
{
    if k < s.len() {
        lemma_digits_value_grows(s, k + 1);
        assert(s.take(k + 1).drop_last() == s.take(k));
        lemma_digits_value_nonneg(s.take(k));
    } else {
        assert(s.take(k) == s);
        lemma_digits_value_nonneg(s);
    }
}

proof fn lemma_digits_value_nonneg(s: Seq<char>)
    requires
        forall|j: int| 0 <= j < s.len() ==> is_digit(#[trigger] s[j]),
    ensures
        0 <= digits_value(s),
    decreases s.len(),
{
    if s.len() > 0 {
        lemma_digits_value_nonneg(s.drop_last());
    }
}

/// `str::parse::<i64>`.
pub fn parse_i64(s: &str) -> (res: Option<i64>)
    ensures
        res == parse_i64_spec(s@),
{
    let chars = chars_of(s);
    let n = chars.len();
    if n == 0 {
        return None;
    }
    let negative = chars[0] == '-';
    let start: usize = if chars[0] == '-' || chars[0] == '+' { 1 } else { 0 };
    let ghost body = unsigned_part(s@);
    assert(body == s@.subrange(start as int, n as int));
    if start == n {
        return None;
    }
    let limit: u128 = 9223372036854775808;
    let mut acc: u128 = 0;
    let mut i: usize = start;
    while i < n
        invariant
            start <= i <= n == chars@.len(),
            chars@ == s@,
            body == s@.subrange(start as int, n as int),
            body == unsigned_part(s@),
            limit == 9223372036854775808u128,
            acc as int == digits_value(body.take(i - start)),
            acc <= limit,
            forall|j: int| 0 <= j < i - start ==> is_digit(#[trigger] body[j]),
        decreases n - i,
    {
        let c = chars[i];
        assert(body[i - start] == c);
        if !('0' <= c && c <= '9') {
            assert(!is_digit(body[i - start]));
            assert(!all_digits(body));
            return None;
        }
        let d: u128 = (c as u32 - '0' as u32) as u128;
        assert(body.take(i - start + 1).drop_last() == body.take(i - start));
        acc = acc * 10 + d;
        if acc > limit {
            assert forall|j: int| 0 <= j < i - start + 1 implies is_digit(#[trigger] body.take(i - start + 1)[j]) by {
                assert(body.take(i - start + 1)[j] == body[j]);
            }
            proof {
                if all_digits(body) {
                    lemma_digits_value_grows(body, i - start + 1);
                    assert(signed_value(s@) > i64::MAX || signed_value(s@) < i64::MIN);
                }
            }
            return None;
        }
        i = i + 1;
    }
    assert(body.take(n - start) == body);
    if negative {
        let magnitude = acc as i128;
        Some((0 - magnitude) as i64)
    } else {
        if acc == limit {
            return None;
        }
        Some(acc as i64)
    }
}


/// `s` with every `from` replaced by `to` (`str::replace` with character patterns).
pub open spec fn replace_char_spec(s: Seq<char>, from: char, to: char) -> Seq<char> {
    s.map_values(|c: char| if c == from { to } else { c })
}

/// `str::replace` with single-character pattern and replacement.
pub fn replace_char(s: &str, from: char, to: char) -> (res: String)
    ensures
        res@ == replace_char_spec(s@, from, to),
{
    let chars = chars_of(s);
    let mut out: Vec<char> = Vec::new();
    let mut i: usize = 0;
    while i < chars.len()
        invariant
            i <= chars@.len(),
            chars@ == s@,
            out@ == replace_char_spec(s@.take(i as int), from, to),
        decreases chars@.len() - i,
    {
        let c = chars[i];
        out.push(if c == from { to } else { c });
        assert(replace_char_spec(s@.take(i + 1), from, to) == replace_char_spec(
            s@.take(i as int),
            from,
            to,
        ).push(if c == from { to } else { c }));
        i = i + 1;
    }
    assert(s@.take(chars@.len() as int) == s@);
    string_from_chars(out.as_slice())
}


/// `s` with every trailing `\r` and `\n` removed (`trim_end_matches(['\r', '\n'])`).
pub open spec fn trim_end_newlines_spec(s: Seq<char>) -> Seq<char>
    decreases s.len(),
{
    if s.len() > 0 && (s.last() == '\r' || s.last() == '\n') {
        trim_end_newlines_spec(s.drop_last())
    } else {
        s
    }
}

/// `str::trim_end_matches(['\r', '\n'])`.
pub fn trim_end_newlines(s: &str) -> (res: String)
    ensures
        res@ == trim_end_newlines_spec(s@),
{
    let chars = chars_of(s);
    let mut j: usize = chars.len();
    assert(s@.subrange(0, j as int) == s@);
    while j > 0 && (chars[j - 1] == '\r' || chars[j - 1] == '\n')
        invariant
            j <= chars@.len(),
            chars@ == s@,
            trim_end_newlines_spec(s@) == trim_end_newlines_spec(s@.subrange(0, j as int)),
        decreases j,
    {
        let ghost sub = s@.subrange(0, j as int);
        assert(sub.drop_last() == s@.subrange(0, j - 1));
        j = j - 1;
    }
    collect_range(&chars, 0, j)
}

/// The lines of `s` that are not blank, each trimmed.
pub open spec fn nonblank_trimmed(lines: Seq<Seq<char>>) -> Seq<Seq<char>>
    decreases lines.len(),
{
    if lines.len() == 0 {
        Seq::empty()
    } else if trim_spec(lines.last()).len() == 0 {
        nonblank_trimmed(lines.drop_last())
    } else {
        nonblank_trimmed(lines.drop_last()).push(trim_spec(lines.last()))
    }
}

/// The non-blank lines of `s`, trimmed, in order.
pub fn nonblank_trimmed_lines(s: &str) -> (res: Vec<String>)
    ensures
        views(res@) == nonblank_trimmed(lines_spec(s@)),
{
    let all = lines(s);
    let mut out: Vec<String> = Vec::new();
    let mut i: usize = 0;
    while i < all.len()
        invariant
            i <= all@.len(),
            views(all@) == lines_spec(s@),
            views(out@) == nonblank_trimmed(views(all@).take(i as int)),
        decreases all@.len() - i,
    {
        assert(views(all@).take(i + 1).drop_last() == views(all@).take(i as int));
        let t = trim(all[i].as_str());
        if !t.as_str().is_empty() {
            out.push(t);
            assert(views(out@) == views(out@).drop_last().push(t@));
        }
        i = i + 1;
    }
    assert(views(all@).take(all@.len() as int) == views(all@));
    out
}

/// Lexicographic order of texts by code point (the order of file names in one directory).
pub open spec fn text_le(a: Seq<char>, b: Seq<char>) -> bool
    decreases a.len(),
{
    if a.len() == 0 {
        true
    } else if b.len() == 0 {
        false
    } else if a[0] != b[0] {
        a[0] < b[0]
    } else {
        text_le(a.drop_first(), b.drop_first())
    }
}

/// Any two texts are ordered one way or the other.
pub proof fn lemma_text_le_total(a: Seq<char>, b: Seq<char>)
    ensures
        text_le(a, b) || text_le(b, a),
    decreases a.len(),
{
    if a.len() > 0 && b.len() > 0 && a[0] == b[0] {
        lemma_text_le_total(a.drop_first(), b.drop_first());
    }
}

/// The order is transitive.
pub proof fn lemma_text_le_trans(a: Seq<char>, b: Seq<char>, c: Seq<char>)
    requires
        text_le(a, b),
        text_le(b, c),
    ensures
        text_le(a, c),
    decreases a.len(),
{
    if a.len() > 0 && b.len() > 0 && c.len() > 0 && a[0] == b[0] && b[0] == c[0] {
        lemma_text_le_trans(a.drop_first(), b.drop_first(), c.drop_first());
    }
}

/// Whether `a` comes before or equals `b` in code-point order.
pub fn text_le_exec(a: &str, b: &str) -> (res: bool)
    ensures
        res == text_le(a@, b@),
{
    let x = crate::text::chars_of(a);
    let y = crate::text::chars_of(b);
    let mut i: usize = 0;
    assert(a@.skip(0) == a@);
    assert(b@.skip(0) == b@);
    while i < x.len() && i < y.len() && x[i] == y[i]
        invariant
            i <= x@.len(),
            i <= y@.len(),
            x@ == a@,
            y@ == b@,
            text_le(a@, b@) == text_le(a@.skip(i as int), b@.skip(i as int)),
        decreases x@.len() - i,
    {
        assert(a@.skip(i as int).drop_first() == a@.skip(i + 1));
        assert(b@.skip(i as int).drop_first() == b@.skip(i + 1));
        i = i + 1;
    }
    if i == x.len() {
        true
    } else if i == y.len() {
        false
    } else {
        x[i] < y[i]
    }
}

} // verus!
