//! Character-level helpers on strings, each proved against a short specification.

use vstd::prelude::*;

verus! {

broadcast use vstd::string::group_string_axioms;

/// `String::push` appends one character.
pub assume_specification[ String::push ](s: &mut String, ch: char)
    ensures
        final(s)@ == old(s)@.push(ch),
;

// ── specifications ──────────────────────────────────────────────────────────
/// Unicode `White_Space`, the property that `char::is_whitespace` tests.
pub open spec fn is_ws(c: char) -> bool {
    let u = c as u32;
    ||| 9 <= u <= 13
    ||| u == 32
    ||| u == 0x85
    ||| u == 0xA0
    ||| u == 0x1680
    ||| 0x2000 <= u <= 0x200A
    ||| u == 0x2028
    ||| u == 0x2029
    ||| u == 0x202F
    ||| u == 0x205F
    ||| u == 0x3000
}

/// `s` without its leading white space.
pub open spec fn trim_start_spec(s: Seq<char>) -> Seq<char>
    decreases s.len(),
{
    if s.len() > 0 && is_ws(s[0]) {
        trim_start_spec(s.drop_first())
    } else {
        s
    }
}

/// `s` without its trailing white space.
pub open spec fn trim_end_spec(s: Seq<char>) -> Seq<char>
    decreases s.len(),
{
    if s.len() > 0 && is_ws(s.last()) {
        trim_end_spec(s.drop_last())
    } else {
        s
    }
}

/// What `str::trim` gives back.
pub open spec fn trim_spec(s: Seq<char>) -> Seq<char> {
    trim_end_spec(trim_start_spec(s))
}

/// What `str::trim_end_matches(c)` gives back for one character `c`.
pub open spec fn strip_trailing(s: Seq<char>, c: char) -> Seq<char>
    decreases s.len(),
{
    if s.len() > 0 && s.last() == c {
        strip_trailing(s.drop_last(), c)
    } else {
        s
    }
}

/// `char::to_ascii_lowercase`.
pub open spec fn ascii_lower(c: char) -> char {
    if 'A' <= c <= 'Z' {
        ((c as u32) + 32) as char
    } else {
        c
    }
}

/// `str::eq_ignore_ascii_case`.
pub open spec fn eq_ignore_case_spec(a: Seq<char>, b: Seq<char>) -> bool {
    &&& a.len() == b.len()
    &&& forall|i: int| 0 <= i < a.len() ==> #[trigger] ascii_lower(a[i]) == ascii_lower(b[i])
}

pub open spec fn is_digit(c: char) -> bool {
    '0' <= c <= '9'
}

pub open spec fn digit_value(c: char) -> nat {
    ((c as u32) - 48) as nat
}

pub open spec fn digit_char(d: nat) -> char {
    ((d + 48) as u32) as char
}

/// The decimal numeral of `n`, as `Display` writes it.
pub open spec fn dec(n: nat) -> Seq<char>
    decreases n,
{
    if n < 10 {
        seq![digit_char(n)]
    } else {
        dec(n / 10).push(digit_char(n % 10))
    }
}

/// `s` padded on the left with `c` to at least `w` characters.
pub open spec fn pad_left_spec(s: Seq<char>, w: nat, c: char) -> Seq<char> {
    if s.len() >= w {
        s
    } else {
        Seq::new((w - s.len()) as nat, |i: int| c) + s
    }
}

/// `s` padded on the right with spaces to at least `w` characters.
pub open spec fn pad_right_spec(s: Seq<char>, w: nat) -> Seq<char> {
    if s.len() >= w {
        s
    } else {
        s + Seq::new((w - s.len()) as nat, |i: int| ' ')
    }
}

/// `format!("{:0w$}", n)` for a natural number.
pub open spec fn zero_padded(n: nat, w: nat) -> Seq<char> {
    pad_left_spec(dec(n), w, '0')
}

pub open spec fn all_digits(s: Seq<char>) -> bool {
    forall|i: int| 0 <= i < s.len() ==> #[trigger] is_digit(s[i])
}

/// The value of a string of decimal digits.
pub open spec fn digits_value(s: Seq<char>) -> nat
    decreases s.len(),
{
    if s.len() == 0 {
        0
    } else {
        digits_value(s.drop_last()) * 10 + digit_value(s.last())
    }
}

/// What `str::parse::<u64>` accepts and gives back.
pub open spec fn parse_u64_spec(s: Seq<char>) -> Option<u64> {
    let digits = if s.len() > 0 && s[0] == '+' {
        s.drop_first()
    } else {
        s
    };
    if digits.len() > 0 && all_digits(digits) && digits_value(digits) <= u64::MAX {
        Some(digits_value(digits) as u64)
    } else {
        None
    }
}

/// What `str::parse::<i64>` accepts and gives back.
pub open spec fn parse_i64_spec(s: Seq<char>) -> Option<i64> {
    if s.len() > 0 && s[0] == '-' {
        let digits = s.drop_first();
        if digits.len() > 0 && all_digits(digits) && digits_value(digits) <= 0x8000_0000_0000_0000
        {
            Some((0 - digits_value(digits)) as i64)
        } else {
            None
        }
    } else {
        let digits = if s.len() > 0 && s[0] == '+' {
            s.drop_first()
        } else {
            s
        };
        if digits.len() > 0 && all_digits(digits) && digits_value(digits) <= i64::MAX {
            Some(digits_value(digits) as i64)
        } else {
            None
        }
    }
}

/// The strings of `list` joined by `sep`, as `[..].join(sep)` does.
pub open spec fn join_spec(list: Seq<Seq<char>>, sep: Seq<char>) -> Seq<char>
    decreases list.len(),
{
    if list.len() == 0 {
        Seq::empty()
    } else if list.len() == 1 {
        list[0]
    } else {
        join_spec(list.drop_last(), sep) + sep + list.last()
    }
}

pub open spec fn strings_view(v: Seq<String>) -> Seq<Seq<char>> {
    v.map_values(|s: String| s@)
}

pub proof fn lemma_strings_view_push(v: Seq<String>, s: String)
    ensures
        strings_view(v.push(s)) == strings_view(v).push(s@),
{
    assert(strings_view(v.push(s)) =~= strings_view(v).push(s@));
}

// ── lemmas ──────────────────────────────────────────────────────────────────
proof fn lemma_trim_start_step(s: Seq<char>, i: int)
    requires
        0 <= i < s.len(),
        is_ws(s[i]),
    ensures
        trim_start_spec(s.subrange(i, s.len() as int)) == trim_start_spec(
            s.subrange(i + 1, s.len() as int),
        ),
{
    assert(s.subrange(i, s.len() as int).drop_first() =~= s.subrange(i + 1, s.len() as int));
}

proof fn lemma_trim_end_step(s: Seq<char>, j: int)
    requires
        0 < j <= s.len(),
        is_ws(s[j - 1]),
    ensures
        trim_end_spec(s.subrange(0, j)) == trim_end_spec(s.subrange(0, j - 1)),
{
    assert(s.subrange(0, j).drop_last() =~= s.subrange(0, j - 1));
}

proof fn lemma_strip_step(s: Seq<char>, j: int, c: char)
    requires
        0 < j <= s.len(),
        s[j - 1] == c,
    ensures
        strip_trailing(s.subrange(0, j), c) == strip_trailing(s.subrange(0, j - 1), c),
{
    assert(s.subrange(0, j).drop_last() =~= s.subrange(0, j - 1));
}

proof fn lemma_digits_push(s: Seq<char>, k: int)
    requires
        0 <= k < s.len(),
    ensures
        digits_value(s.subrange(0, k + 1)) == digits_value(s.subrange(0, k)) * 10 + digit_value(
            s[k],
        ),
{
    assert(s.subrange(0, k + 1).drop_last() =~= s.subrange(0, k));
}

proof fn lemma_digits_monotone(s: Seq<char>, k: int)
    requires
        0 <= k <= s.len(),
    ensures
        digits_value(s.subrange(0, k)) <= digits_value(s),
    decreases s.len() - k,
{
    if k < s.len() {
        lemma_digits_push(s, k);
        lemma_digits_monotone(s, k + 1);
    } else {
        assert(s.subrange(0, k) =~= s);
    }
}

// ── laws ────────────────────────────────────────────────────────────────────
/// A decimal numeral reads back as its value: `dec(n)` is a non-empty run of
/// digits whose value is `n`, so parsing it as a `u64` gives `n` back.
pub proof fn dec_reads_back(n: nat)
    ensures
        dec(n).len() > 0,
        all_digits(dec(n)),
        digits_value(dec(n)) == n,
        n <= u64::MAX ==> parse_u64_spec(dec(n)) == Some(n as u64),
    decreases n,
{
    let d = n % 10;
    assert(digit_char(d) as u32 == d + 48);
    assert(is_digit(digit_char(d)));
    assert(digit_value(digit_char(d)) == d);
    if n >= 10 {
        dec_reads_back(n / 10);
        assert(dec(n).drop_last() =~= dec(n / 10));
        assert(dec(n).last() == digit_char(d));
        assert(digits_value(dec(n)) == digits_value(dec(n / 10)) * 10 + digit_value(digit_char(d)));
        assert(n == (n / 10) * 10 + d);
        assert forall|i: int| 0 <= i < dec(n).len() implies #[trigger] is_digit(dec(n)[i]) by {
            if i < dec(n).len() - 1 {
                assert(dec(n)[i] == dec(n / 10)[i]);
            }
        }
    } else {
        assert(dec(n).drop_last() =~= Seq::<char>::empty());
        assert(digits_value(Seq::<char>::empty()) == 0);
        assert(digits_value(dec(n)) == digits_value(Seq::<char>::empty()) * 10 + digit_value(
            digit_char(d),
        ));
    }
    assert(is_digit(dec(n)[0]));
    assert(dec(n)[0] != '+');
}

/// A text that neither starts nor ends with white space is its own trim.
pub proof fn lemma_trim_no_ws(s: Seq<char>)
    requires
        s.len() > 0,
        !is_ws(s[0]),
        !is_ws(s.last()),
    ensures
        trim_spec(s) == s,
{
}

// ── executable helpers ──────────────────────────────────────────────────────
/// The characters of `s`, in order.
pub fn chars_of(s: &str) -> (r: Vec<char>)
    ensures
        r@ == s@,
{
    let mut v: Vec<char> = Vec::new();
    for c in it: s.chars()
        invariant
            v@ == it.seq().take(it.index() as int),
    {
        v.push(c);
    }
    v
}

/// A string made of `v[lo..hi]`.
pub fn string_of_range(v: &Vec<char>, lo: usize, hi: usize) -> (r: String)
    requires
        lo <= hi <= v.len(),
    ensures
        r@ == v@.subrange(lo as int, hi as int),
{
    let mut out = String::new();
    let mut i = lo;
    while i < hi
        invariant
            lo <= i <= hi <= v.len(),
            out@ == v@.subrange(lo as int, i as int),
        decreases hi - i,
    {
        out.push(v[i]);
        i += 1;
        assert(out@ =~= v@.subrange(lo as int, i as int));
    }
    out
}

/// A string made of all of `v`.
pub fn string_of(v: &Vec<char>) -> (r: String)
    ensures
        r@ == v@,
{
    let r = string_of_range(v, 0, v.len());
    assert(v@.subrange(0, v.len() as int) =~= v@);
    r
}

/// A copy of `s` as an owned string.
pub fn owned(s: &str) -> (r: String)
    ensures
        r@ == s@,
{
    let v = chars_of(s);
    string_of(&v)
}

/// Appends `s` to `out`.
pub fn push_str(out: &mut String, s: &str)
    ensures
        final(out)@ == old(out)@ + s@,
{
    let v = chars_of(s);
    let mut i: usize = 0;
    while i < v.len()
        invariant
            i <= v.len(),
            v@ == s@,
            out@ == old(out)@ + v@.subrange(0, i as int),
        decreases v.len() - i,
    {
        out.push(v[i]);
        i += 1;
        assert(out@ =~= old(out)@ + v@.subrange(0, i as int));
    }
    assert(v@.subrange(0, v.len() as int) =~= v@);
}

/// `list.join(sep)`.
pub fn join(list: &Vec<String>, sep: &str) -> (r: String)
    ensures
        r@ == join_spec(strings_view(list@), sep@),
{
    let ghost lv = strings_view(list@);
    let mut out = String::new();
    let mut i: usize = 0;
    while i < list.len()
        invariant
            i <= list.len(),
            lv == strings_view(list@),
            out@ == join_spec(lv.take(i as int), sep@),
        decreases list.len() - i,
    {
        if i > 0 {
            push_str(&mut out, sep);
        }
        push_str(&mut out, list[i].as_str());
        proof {
            assert(lv.take(i + 1).drop_last() =~= lv.take(i as int));
            if i == 0 {
                assert(out@ =~= join_spec(lv.take(1), sep@));
            }
        }
        i += 1;
    }
    assert(lv.take(list.len() as int) =~= lv);
    out
}

/// `char::is_whitespace`.
pub fn is_whitespace(c: char) -> (b: bool)
    ensures
        b == is_ws(c),
{
    let u = c as u32;
    (9 <= u && u <= 13) || u == 32 || u == 0x85 || u == 0xA0 || u == 0x1680 || (0x2000 <= u && u
        <= 0x200A) || u == 0x2028 || u == 0x2029 || u == 0x202F || u == 0x205F || u == 0x3000
}

/// `str::trim`.
pub fn trim(s: &str) -> (r: String)
    ensures
        r@ == trim_spec(s@),
{
    let v = chars_of(s);
    let n = v.len();
    let mut i: usize = 0;
    assert(v@.subrange(0, n as int) =~= v@);
    while i < n && is_whitespace(v[i])
        invariant
            i <= n == v.len(),
            trim_start_spec(v@) == trim_start_spec(v@.subrange(i as int, n as int)),
        decreases n - i,
    {
        proof {
            lemma_trim_start_step(v@, i as int);
        }
        i += 1;
    }
    let ghost rest = v@.subrange(i as int, n as int);
    assert(trim_start_spec(rest) == rest);
    let mut j: usize = n;
    assert(rest.subrange(0, (j - i) as int) =~= rest);
    while j > i && is_whitespace(v[j - 1])
        invariant
            i <= j <= n == v.len(),
            rest == v@.subrange(i as int, n as int),
            trim_end_spec(rest) == trim_end_spec(rest.subrange(0, (j - i) as int)),
        decreases j,
    {
        proof {
            lemma_trim_end_step(rest, (j - i) as int);
        }
        j -= 1;
    }
    let ghost kept = rest.subrange(0, (j - i) as int);
    assert(trim_end_spec(kept) == kept);
    assert(kept =~= v@.subrange(i as int, j as int));
    string_of_range(&v, i, j)
}

/// `str::trim_end_matches(c)` for one character `c`.
pub fn trim_end_char(s: &str, c: char) -> (r: String)
    ensures
        r@ == strip_trailing(s@, c),
{
    let v = chars_of(s);
    let mut j: usize = v.len();
    assert(v@.subrange(0, j as int) =~= v@);
    while j > 0 && v[j - 1] == c
        invariant
            j <= v.len(),
            strip_trailing(v@, c) == strip_trailing(v@.subrange(0, j as int), c),
        decreases j,
    {
        proof {
            lemma_strip_step(v@, j as int, c);
        }
        j -= 1;
    }
    string_of_range(&v, 0, j)
}

/// `char::to_ascii_lowercase`.
pub fn lower_ascii(c: char) -> (r: char)
    ensures
        r == ascii_lower(c),
{
    if 'A' <= c && c <= 'Z' {
        let u = (c as u32) + 32;
        assert(97 <= u <= 122);
        proof {
            assert(ascii_lower(c) == (u as char));
        }
        char_of_ascii(u)
    } else {
        c
    }
}

fn char_of_ascii(u: u32) -> (r: char)
    requires
        u < 128,
    ensures
        r == u as char,
{
    let b = u as u8;
    b as char
}

/// `str::eq_ignore_ascii_case`.
pub fn eq_ignore_ascii_case(a: &str, b: &str) -> (r: bool)
    ensures
        r == eq_ignore_case_spec(a@, b@),
{
    let va = chars_of(a);
    let vb = chars_of(b);
    if va.len() != vb.len() {
        return false;
    }
    let mut i: usize = 0;
    while i < va.len()
        invariant
            i <= va.len() == vb.len(),
            va@ == a@,
            vb@ == b@,
            forall|k: int| 0 <= k < i ==> #[trigger] ascii_lower(va@[k]) == ascii_lower(vb@[k]),
        decreases va.len() - i,
    {
        if lower_ascii(va[i]) != lower_ascii(vb[i]) {
            return false;
        }
        i += 1;
    }
    true
}

/// Does `s` hold the character `c`?
pub fn contains_char(s: &str, c: char) -> (r: bool)
    ensures
        r == s@.contains(c),
{
    let v = chars_of(s);
    let mut i: usize = 0;
    while i < v.len()
        invariant
            i <= v.len(),
            v@ == s@,
            forall|k: int| 0 <= k < i ==> v@[k] != c,
        decreases v.len() - i,
    {
        if v[i] == c {
            return true;
        }
        i += 1;
    }
    false
}

fn digit_to_char(d: u64) -> (c: char)
    requires
        d < 10,
    ensures
        c == digit_char(d as nat),
{
    char_of_ascii((d as u32) + 48)
}

/// Appends the decimal numeral of `n` to `out`.
pub fn push_dec(out: &mut String, n: u64)
    ensures
        final(out)@ == old(out)@ + dec(n as nat),
    decreases n,
{
    if n >= 10 {
        push_dec(out, n / 10);
    }
    out.push(digit_to_char(n % 10));
    assert(out@ =~= old(out)@ + dec(n as nat));
}

/// The decimal numeral of `n`.
pub fn dec_string(n: u64) -> (r: String)
    ensures
        r@ == dec(n as nat),
{
    let mut s = String::new();
    push_dec(&mut s, n);
    assert(s@ =~= dec(n as nat));
    s
}

/// `s` padded on the left with `c` to at least `w` characters.
pub fn pad_left(s: &str, w: usize, c: char) -> (r: String)
    ensures
        r@ == pad_left_spec(s@, w as nat, c),
{
    let v = chars_of(s);
    let mut out = String::new();
    if v.len() < w {
        let fill = w - v.len();
        let mut i: usize = 0;
        while i < fill
            invariant
                i <= fill,
                out@ == Seq::new(i as nat, |k: int| c),
            decreases fill - i,
        {
            out.push(c);
            i += 1;
            assert(out@ =~= Seq::new(i as nat, |k: int| c));
        }
    }
    push_str(&mut out, s);
    assert(out@ =~= pad_left_spec(s@, w as nat, c));
    out
}

/// `s` padded on the right with spaces to at least `w` characters.
pub fn pad_right(s: &str, w: usize) -> (r: String)
    ensures
        r@ == pad_right_spec(s@, w as nat),
{
    let v = chars_of(s);
    let mut out = owned(s);
    if v.len() < w {
        let fill = w - v.len();
        let mut i: usize = 0;
        while i < fill
            invariant
                i <= fill,
                out@ == s@ + Seq::new(i as nat, |k: int| ' '),
            decreases fill - i,
        {
            out.push(' ');
            i += 1;
            assert(out@ =~= s@ + Seq::new(i as nat, |k: int| ' '));
        }
    }
    assert(out@ =~= pad_right_spec(s@, w as nat));
    out
}

/// `format!("{:0w$}", n)`.
pub fn zero_pad(n: u64, w: usize) -> (r: String)
    ensures
        r@ == zero_padded(n as nat, w as nat),
{
    let d = dec_string(n);
    pad_left(d.as_str(), w, '0')
}

/// Reads the decimal digits `v[lo..]`; `None` when one is not a digit or the
/// value passes `limit`.
fn read_digits(v: &Vec<char>, lo: usize, limit: u64) -> (r: Option<u64>)
    requires
        lo <= v.len(),
        limit >= 9,
    ensures
        ({
            let d = v@.subrange(lo as int, v.len() as int);
            match r {
                Some(x) => all_digits(d) && digits_value(d) <= limit && x == digits_value(d),
                None => !all_digits(d) || digits_value(d) > limit,
            }
        }),
{
    let ghost d = v@.subrange(lo as int, v.len() as int);
    let mut acc: u64 = 0;
    let mut i: usize = lo;
    assert(d.subrange(0, 0) =~= Seq::<char>::empty());
    while i < v.len()
        invariant
            lo <= i <= v.len(),
            d == v@.subrange(lo as int, v.len() as int),
            all_digits(d.subrange(0, (i - lo) as int)),
            acc == digits_value(d.subrange(0, (i - lo) as int)),
            acc <= limit,
            limit >= 9,
        decreases v.len() - i,
    {
        let c = v[i];
        if !('0' <= c && c <= '9') {
            assert(d[(i - lo) as int] == c);
            assert(!is_digit(d[(i - lo) as int]));
            return None;
        }
        let dv = (c as u32 - 48) as u64;
        proof {
            lemma_digits_push(d, (i - lo) as int);
            assert(d[(i - lo) as int] == c);
        }
        if acc > (limit - dv) / 10 {
            proof {
                assert(acc * 10 + dv > limit) by (nonlinear_arith)
                    requires
                        acc > (limit - dv) / 10,
                        dv <= 9,
                ;
                lemma_digits_monotone(d, (i - lo + 1) as int);
                if all_digits(d) {
                    assert(digits_value(d) > limit);
                }
            }
            return None;
        }
        proof {
            assert(acc * 10 + dv <= limit) by (nonlinear_arith)
                requires
                    acc <= (limit - dv) / 10,
                    dv <= 9,
            ;
        }
        acc = acc * 10 + dv;
        i += 1;
        assert(all_digits(d.subrange(0, (i - lo) as int)));
    }
    assert(d.subrange(0, (i - lo) as int) =~= d);
    Some(acc)
}

/// `str::parse::<u64>`.
pub fn parse_u64(s: &str) -> (r: Option<u64>)
    ensures
        r == parse_u64_spec(s@),
{
    let v = chars_of(s);
    let lo: usize = if v.len() > 0 && v[0] == '+' {
        1
    } else {
        0
    };
    assert(lo == 1 ==> v@.subrange(1, v.len() as int) =~= s@.drop_first());
    assert(lo == 0 ==> v@.subrange(0, v.len() as int) =~= s@);
    if lo == v.len() {
        return None;
    }
    read_digits(&v, lo, u64::MAX)
}

/// `str::parse::<i64>`.
pub fn parse_i64(s: &str) -> (r: Option<i64>)
    ensures
        r == parse_i64_spec(s@),
{
    let v = chars_of(s);
    if v.len() > 0 && v[0] == '-' {
        assert(v@.subrange(1, v.len() as int) =~= s@.drop_first());
        if v.len() == 1 {
            return None;
        }
        match read_digits(&v, 1, 0x8000_0000_0000_0000) {
            Some(x) => {
                if x == 0x8000_0000_0000_0000 {
                    Some(-0x8000_0000_0000_0000i64)
                } else {
                    let y = x as i64;
                    Some(-y)
                }
            },
            None => None,
        }
    } else {
        let lo: usize = if v.len() > 0 && v[0] == '+' {
            1
        } else {
            0
        };
        assert(lo == 1 ==> v@.subrange(1, v.len() as int) =~= s@.drop_first());
        assert(lo == 0 ==> v@.subrange(0, v.len() as int) =~= s@);
        if lo == v.len() {
            return None;
        }
        match read_digits(&v, lo, 0x7fff_ffff_ffff_ffff) {
            Some(x) => Some(x as i64),
            None => None,
        }
    }
}

} // verus!
