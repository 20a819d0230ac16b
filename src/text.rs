//! Character-level helpers: case folding, splitting, and decimal parsing.

use vstd::prelude::*;

verus! {

/// What `str::to_lowercase` makes of a string.
pub uninterp spec fn lower_of(s: Seq<char>) -> Seq<char>;

/// Relies on `str::to_lowercase`: its result depends on the characters alone.
#[verifier::external_body]
pub(crate) fn lowercase(s: &str) -> (r: String)
    ensures
        r@ == lower_of(s@),
{
    s.to_lowercase()
}

/// What `String::from_utf8_lossy` makes of a byte sequence.
pub uninterp spec fn lossy_of(b: Seq<u8>) -> Seq<char>;

/// Relies on `String::from_utf8_lossy`: its result depends on the bytes alone.
#[verifier::external_body]
pub(crate) fn lossy_utf8(b: &Vec<u8>) -> (r: String)
    ensures
        r@ == lossy_of(b@),
{
    String::from_utf8_lossy(b.as_slice()).into_owned()
}

/// `s` without its underscores.
pub open spec fn strip_underscores(s: Seq<char>) -> Seq<char>
    decreases s.len(),
{
    if s.len() == 0 {
        s
    } else if s.last() == '_' {
        strip_underscores(s.drop_last())
    } else {
        strip_underscores(s.drop_last()).push(s.last())
    }
}

/// The characters of `s`, without its underscores.
pub fn without_underscores(s: &str) -> (r: Vec<char>)
    ensures
        r@ == strip_underscores(s@),
{
    let n = s.unicode_len();
    let mut r: Vec<char> = Vec::new();
    let mut i: usize = 0;
    while i < n
        invariant
            n == s@.len(),
            i <= n,
            r@ == strip_underscores(s@.subrange(0, i as int)),
        decreases n - i,
    {
        let c = s.get_char(i);
        assert(s@.subrange(0, i as int + 1).drop_last() =~= s@.subrange(0, i as int));
        if c != '_' {
            r.push(c);
        }
        i = i + 1;
    }
    assert(s@.subrange(0, n as int) =~= s@);
    r
}

/// Whether the characters in `v` are those of `s`.
pub fn chars_equal(v: &Vec<char>, s: &str) -> (r: bool)
    ensures
        r == (v@ == s@),
{
    let n = s.unicode_len();
    if v.len() != n {
        return false;
    }
    let mut i: usize = 0;
    while i < n
        invariant
            n == s@.len(),
            n == v@.len(),
            i <= n,
            forall|j: int| 0 <= j < i ==> v@[j] == s@[j],
        decreases n - i,
    {
        if v[i] != s.get_char(i) {
            return false;
        }
        i = i + 1;
    }
    assert(v@ =~= s@);
    true
}

/// Whether two strings hold the same characters.
pub fn str_equal(a: &str, b: &str) -> (r: bool)
    ensures
        r == (a@ == b@),
{
    let n = a.unicode_len();
    if b.unicode_len() != n {
        return false;
    }
    let mut i: usize = 0;
    while i < n
        invariant
            n == a@.len(),
            n == b@.len(),
            i <= n,
            forall|j: int| 0 <= j < i ==> a@[j] == b@[j],
        decreases n - i,
    {
        if a.get_char(i) != b.get_char(i) {
            return false;
        }
        i = i + 1;
    }
    assert(a@ =~= b@);
    true
}

/// The pieces of `s` between occurrences of `sep`, in order; there is always
/// at least one piece.
pub open spec fn split_on(s: Seq<char>, sep: char) -> Seq<Seq<char>>
    decreases s.len(),
{
    if s.len() == 0 {
        seq![Seq::<char>::empty()]
    } else {
        let parts = split_on(s.drop_last(), sep);
        if s.last() == sep {
            parts.push(Seq::<char>::empty())
        } else {
            parts.update(parts.len() - 1, parts.last().push(s.last()))
        }
    }
}

pub proof fn lemma_split_nonempty(s: Seq<char>, sep: char)
    ensures
        split_on(s, sep).len() >= 1,
    decreases s.len(),
{
    if s.len() > 0 {
        lemma_split_nonempty(s.drop_last(), sep);
    }
}

/// The views of a vector of strings.
pub open spec fn views_of(v: Seq<String>) -> Seq<Seq<char>> {
    v.map_values(|p: String| p@)
}

/// Splits `s` at every `sep`.
pub fn split_chars(s: &str, sep: char) -> (r: Vec<String>)
    ensures
        views_of(r@) == split_on(s@, sep),
{
    let n = s.unicode_len();
    let mut parts: Vec<String> = Vec::new();
    let mut start: usize = 0;
    let mut i: usize = 0;
    assert(s@.subrange(0, 0) =~= Seq::<char>::empty());
    assert(views_of(parts@) =~= Seq::<Seq<char>>::empty());
    assert(split_on(s@.subrange(0, 0), sep) =~= views_of(parts@).push(s@.subrange(0, 0)));
    while i < n
        invariant
            n == s@.len(),
            start <= i <= n,
            split_on(s@.subrange(0, i as int), sep) == views_of(parts@).push(
                s@.subrange(start as int, i as int),
            ),
        decreases n - i,
    {
        let c = s.get_char(i);
        let ghost pre = s@.subrange(0, i as int);
        assert(s@.subrange(0, i as int + 1).drop_last() =~= pre);
        assert(s@.subrange(0, i as int + 1).last() == c);
        if c == sep {
            let piece = s.substring_char(start, i).to_owned();
            let ghost old_parts = parts@;
            parts.push(piece);
            assert(views_of(parts@) =~= views_of(old_parts).push(piece@));
            assert(s@.subrange(i as int + 1, i as int + 1) =~= Seq::<char>::empty());
            start = i + 1;
        } else {
            assert(s@.subrange(start as int, i as int).push(c) =~= s@.subrange(
                start as int,
                i as int + 1,
            ));
            assert(views_of(parts@).push(s@.subrange(start as int, i as int)).update(
                views_of(parts@).len() as int,
                s@.subrange(start as int, i as int + 1),
            ) =~= views_of(parts@).push(s@.subrange(start as int, i as int + 1)));
        }
        i = i + 1;
    }
    let last = s.substring_char(start, n).to_owned();
    let ghost old_parts = parts@;
    parts.push(last);
    assert(views_of(parts@) =~= views_of(old_parts).push(last@));
    assert(s@.subrange(0, n as int) =~= s@);
    parts
}

/// Whether `c` is an ASCII decimal digit.
pub open spec fn is_digit(c: char) -> bool {
    '0' <= c && c <= '9'
}

/// The value of a decimal digit.
pub open spec fn digit_value(c: char) -> int {
    (c as int) - ('0' as int)
}

/// Whether `s` is a non-empty run of decimal digits.
pub open spec fn all_digits(s: Seq<char>) -> bool {
    s.len() > 0 && forall|i: int| 0 <= i < s.len() ==> is_digit(#[trigger] s[i])
}

/// The number written by the digits of `s`, most significant first.
pub open spec fn decimal_value(s: Seq<char>) -> int
    decreases s.len(),
{
    if s.len() == 0 {
        0
    } else {
        decimal_value(s.drop_last()) * 10 + digit_value(s.last())
    }
}

/// Whether `s` holds an unsigned integer up to `limit`, as `usize::from_str` reads one:
/// an optional `+` and one or more digits.
pub open spec fn unsigned_digits(s: Seq<char>) -> Seq<char> {
    if s.len() > 0 && s[0] == '+' {
        s.subrange(1, s.len() as int)
    } else {
        s
    }
}

/// The `usize` that `s` writes in decimal, if any.
pub open spec fn usize_of(s: Seq<char>) -> Option<usize> {
    let d = unsigned_digits(s);
    if all_digits(d) && decimal_value(d) <= usize::MAX {
        Some(decimal_value(d) as usize)
    } else {
        None
    }
}

/// The `i64` that `s` writes in decimal with an optional sign, if any.
pub open spec fn i64_of(s: Seq<char>) -> Option<i64> {
    if s.len() > 0 && s[0] == '-' {
        let d = s.subrange(1, s.len() as int);
        if all_digits(d) && decimal_value(d) <= 0x8000_0000_0000_0000 {
            Some((-decimal_value(d)) as i64)
        } else {
            None
        }
    } else {
        let d = unsigned_digits(s);
        if all_digits(d) && decimal_value(d) <= i64::MAX {
            Some(decimal_value(d) as i64)
        } else {
            None
        }
    }
}

/// The `bool` that `s` names, if any.
pub open spec fn bool_of(s: Seq<char>) -> Option<bool> {
    if s == "true"@ {
        Some(true)
    } else if s == "false"@ {
        Some(false)
    } else {
        None
    }
}

proof fn lemma_decimal_monotone(s: Seq<char>, i: int)
    requires
        0 <= i <= s.len(),
        forall|j: int| 0 <= j < s.len() ==> is_digit(#[trigger] s[j]),
    ensures
        decimal_value(s.subrange(0, i)) <= decimal_value(s),
        decimal_value(s) >= 0,
    decreases s.len(),
{
    if s.len() > 0 {
        let p = s.drop_last();
        assert forall|j: int| 0 <= j < p.len() implies is_digit(#[trigger] p[j]) by {
            assert(p[j] == s[j]);
        }
        if i == s.len() {
            assert(s.subrange(0, i) =~= s);
            lemma_decimal_monotone(p, 0);
        } else {
            assert(s.subrange(0, i) =~= p.subrange(0, i));
            lemma_decimal_monotone(p, i);
        }
        assert(is_digit(s[s.len() - 1]));
    } else {
        assert(s.subrange(0, i) =~= s);
    }
}

/// Reads the digits of `s` from position `from` on, giving up once the value
/// passes `limit`.
fn digits_up_to(s: &str, from: usize, limit: u64) -> (r: Option<u64>)
    requires
        from <= s@.len(),
        limit >= 9,
    ensures
        ({
            let d = s@.subrange(from as int, s@.len() as int);
            r == (if all_digits(d) && decimal_value(d) <= limit {
                Some(decimal_value(d) as u64)
            } else {
                None::<u64>
            })
        }),
        r is Some ==> r->0 <= limit && r->0 as int == decimal_value(
            s@.subrange(from as int, s@.len() as int),
        ),
{
    let n = s.unicode_len();
    let ghost d = s@.subrange(from as int, n as int);
    if from == n {
        return None;
    }
    let mut acc: u64 = 0;
    let mut i: usize = from;
    while i < n
        invariant
            n == s@.len(),
            from < n,
            from <= i <= n,
            d == s@.subrange(from as int, n as int),
            forall|j: int| 0 <= j < i - from ==> is_digit(#[trigger] d[j]),
            acc as int == decimal_value(d.subrange(0, i - from)),
            acc <= limit,
            limit >= 9,
        decreases n - i,
    {
        let c = s.get_char(i);
        assert(d[i - from] == c);
        if c < '0' || c > '9' {
            assert(!is_digit(d[i - from]));
            assert(!all_digits(d));
            return None;
        }
        let dv: u64 = (c as u64) - ('0' as u64);
        assert(dv <= 9 && dv as int == digit_value(c));
        assert(d.subrange(0, i - from + 1).drop_last() =~= d.subrange(0, i - from));
        if acc > (limit - dv) / 10 {
            proof {
                assert(acc * 10 + dv > limit) by (nonlinear_arith)
                    requires acc > (limit - dv) / 10, dv <= limit;
                let k = i - from + 1;
                assert forall|j: int| 0 <= j < k implies is_digit(#[trigger] d.subrange(0, k)[j]) by {
                    assert(d.subrange(0, k)[j] == d[j]);
                }
                if all_digits(d) {
                    lemma_decimal_monotone(d, k);
                }
            }
            return None;
        }
        proof {
            assert(acc * 10 + dv <= limit) by (nonlinear_arith)
                requires acc <= (limit - dv) / 10, dv <= limit;
        }
        acc = acc * 10 + dv;
        i = i + 1;
    }
    assert(d.subrange(0, n - from) =~= d);
    Some(acc)
}

/// Reads a `usize` written in decimal, as `usize::from_str` does.
pub fn parse_usize(s: &str) -> (r: Option<usize>)
    ensures
        r == usize_of(s@),
{
    let n = s.unicode_len();
    let from: usize = if n > 0 && s.get_char(0) == '+' { 1 } else { 0 };
    assert(unsigned_digits(s@) =~= s@.subrange(from as int, n as int));
    match digits_up_to(s, from, usize::MAX as u64) {
        Some(v) => Some(v as usize),
        None => None,
    }
}

/// Reads an `i64` written in decimal with an optional sign, as `i64::from_str` does.
pub fn parse_i64(s: &str) -> (r: Option<i64>)
    ensures
        r == i64_of(s@),
{
    let n = s.unicode_len();
    if n > 0 && s.get_char(0) == '-' {
        match digits_up_to(s, 1, 0x8000_0000_0000_0000u64) {
            Some(v) => {
                if v == 0x8000_0000_0000_0000u64 {
                    Some(i64::MIN)
                } else {
                    Some(-(v as i64))
                }
            },
            None => None,
        }
    } else {
        let from: usize = if n > 0 && s.get_char(0) == '+' { 1 } else { 0 };
        assert(unsigned_digits(s@) =~= s@.subrange(from as int, n as int));
        match digits_up_to(s, from, i64::MAX as u64) {
            Some(v) => Some(v as i64),
            None => None,
        }
    }
}

/// Reads `true` or `false`, as `bool::from_str` does.
pub fn parse_bool(s: &str) -> (r: Option<bool>)
    ensures
        r == bool_of(s@),
{
    if str_equal(s, "true") {
        Some(true)
    } else if str_equal(s, "false") {
        Some(false)
    } else {
        None
    }
}

} // verus!
