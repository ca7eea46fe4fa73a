use vstd::prelude::*;

verus! {

/// The characters with the Unicode `White_Space` property.
pub open spec fn is_space(c: char) -> bool {
    let u = c as u32;
    ||| 0x09 <= u <= 0x0d
    ||| u == 0x20
    ||| u == 0x85
    ||| u == 0xa0
    ||| u == 0x1680
    ||| 0x2000 <= u <= 0x200a
    ||| u == 0x2028
    ||| u == 0x2029
    ||| u == 0x202f
    ||| u == 0x205f
    ||| u == 0x3000
}

/// Length of the run of non-space characters that starts `s`.
pub open spec fn word_len(s: Seq<char>) -> nat
    decreases s.len(),
{
    if s.len() == 0 || is_space(s[0]) {
        0
    } else {
        1 + word_len(s.drop_first())
    }
}

/// The maximal runs of non-space characters of `s`, left to right.
pub open spec fn tokens(s: Seq<char>) -> Seq<Seq<char>>
    decreases s.len(),
{
    if s.len() == 0 {
        Seq::empty()
    } else if is_space(s[0]) {
        tokens(s.drop_first())
    } else {
        let w = word_len(s);
        proof {
            lemma_word_len_bounds(s);
        }
        seq![s.take(w as int)] + tokens(s.skip(w as int))
    }
}

/// The words of `ws` with one space between each two.
pub open spec fn join_words(ws: Seq<Seq<char>>) -> Seq<char>
    decreases ws.len(),
{
    if ws.len() == 0 {
        Seq::empty()
    } else if ws.len() == 1 {
        ws[0]
    } else {
        join_words(ws.drop_last()) + seq![' '] + ws.last()
    }
}

/// A leading word is no longer than the text, and not empty where the text
/// starts with a non-space.
pub proof fn lemma_word_len_bounds(s: Seq<char>)
    ensures
        word_len(s) <= s.len(),
        s.len() > 0 && !is_space(s[0]) ==> word_len(s) >= 1,
    decreases s.len(),
{
    if s.len() > 0 && !is_space(s[0]) {
        lemma_word_len_bounds(s.drop_first());
    }
}

/// A run of `w` non-space characters that ends at the end of `s` or at a
/// space is the whole leading word.
proof fn lemma_word_len_exact(s: Seq<char>, w: int)
    requires
        0 <= w <= s.len(),
        forall|k: int| 0 <= k < w ==> !is_space(#[trigger] s[k]),
        w == s.len() || is_space(s[w]),
    ensures
        word_len(s) == w,
    decreases w,
{
    if w > 0 {
        let t = s.drop_first();
        assert forall|k: int| 0 <= k < w - 1 implies !is_space(#[trigger] t[k]) by {
            assert(t[k] == s[k + 1]);
        }
        if w < s.len() {
            assert(t[w - 1] == s[w]);
        }
        lemma_word_len_exact(t, w - 1);
    }
}

/// Whether `c` is a space in the sense of [`is_space`].
pub fn char_is_space(c: char) -> (r: bool)
    ensures
        r == is_space(c),
{
    let u = c as u32;
    (0x09 <= u && u <= 0x0d) || u == 0x20 || u == 0x85 || u == 0xa0 || u == 0x1680
        || (0x2000 <= u && u <= 0x200a) || u == 0x2028 || u == 0x2029 || u == 0x202f
        || u == 0x205f || u == 0x3000
}

/// Splits `s` at its spaces into the words between them.
pub fn split_words(s: &str) -> (r: Vec<String>)
    ensures
        r@.map_values(|w: String| w@) == tokens(s@),
{
    let n = s.unicode_len();
    let mut out: Vec<String> = Vec::new();
    let mut i: usize = 0;
    assert(s@.skip(0) =~= s@);
    assert(out@.map_values(|w: String| w@) + tokens(s@) =~= tokens(s@));
    while i < n
        invariant
            n == s@.len(),
            i <= n,
            tokens(s@) == out@.map_values(|w: String| w@) + tokens(s@.skip(i as int)),
        decreases n - i,
    {
        let c = s.get_char(i);
        if char_is_space(c) {
            assert(s@.skip(i as int).drop_first() =~= s@.skip(i + 1));
            i = i + 1;
        } else {
            let start = i;
            i = i + 1;
            while i < n && !char_is_space(s.get_char(i))
                invariant
                    n == s@.len(),
                    start < i <= n,
                    forall|k: int| start <= k < i ==> !is_space(#[trigger] s@[k]),
                decreases n - i,
            {
                i = i + 1;
            }
            let ghost rest = s@.skip(start as int);
            assert forall|k: int| 0 <= k < i - start implies !is_space(#[trigger] rest[k]) by {
                assert(rest[k] == s@[start + k]);
            }
            if i < n {
                assert(rest[i - start] == s@[i as int]);
            }
            proof {
                lemma_word_len_exact(rest, i - start);
            }
            assert(rest.skip(i - start) =~= s@.skip(i as int));
            let word = String::from_str(s.substring_char(start, i));
            assert(rest.take(i - start) =~= s@.subrange(start as int, i as int));
            let ghost before = out@.map_values(|w: String| w@);
            out.push(word);
            assert(out@.map_values(|w: String| w@) =~= before.push(word@));
            assert(before.push(word@) + tokens(s@.skip(i as int)) =~= before + (seq![rest.take(
                i - start,
            )] + tokens(rest.skip(i - start))));
        }
    }
    assert(s@.skip(n as int) =~= Seq::<char>::empty());
    assert(out@.map_values(|w: String| w@) + Seq::<Seq<char>>::empty() =~= out@.map_values(
        |w: String| w@,
    ));
    out
}

pub open spec fn is_digit(c: char) -> bool {
    '0' <= c <= '9'
}

/// One or more decimal digits and nothing else.
pub open spec fn all_digits(s: Seq<char>) -> bool {
    s.len() > 0 && forall|k: int| 0 <= k < s.len() ==> is_digit(#[trigger] s[k])
}

/// The number that the decimal digits `s` write.
pub open spec fn digits_value(s: Seq<char>) -> int
    decreases s.len(),
{
    if s.len() == 0 {
        0
    } else {
        digits_value(s.drop_last()) * 10 + (s.last() as int - '0' as int)
    }
}

/// The integer that `s` writes in decimal: an optional `+` or `-` followed by
/// one or more digits, with nothing before or after.
pub open spec fn decimal_value(s: Seq<char>) -> Option<int> {
    if s.len() > 0 && s[0] == '-' && all_digits(s.drop_first()) {
        Some(-digits_value(s.drop_first()))
    } else if s.len() > 0 && s[0] == '+' && all_digits(s.drop_first()) {
        Some(digits_value(s.drop_first()))
    } else if all_digits(s) {
        Some(digits_value(s))
    } else {
        None
    }
}

/// The `i32` that `s` writes in decimal, if it writes one in range.
pub open spec fn i32_value(s: Seq<char>) -> Option<i32> {
    match decimal_value(s) {
        Some(v) => if i32::MIN <= v <= i32::MAX {
            Some(v as i32)
        } else {
            None
        },
        None => None,
    }
}

proof fn lemma_digits_prefix(s: Seq<char>, k: int)
    requires
        0 <= k <= s.len(),
        forall|j: int| 0 <= j < s.len() ==> is_digit(#[trigger] s[j]),
    ensures
        0 <= digits_value(s.take(k)) <= digits_value(s),
    decreases s.len(),
{
    if k == s.len() {
        assert(s.take(k) =~= s);
        if s.len() > 0 {
            lemma_digits_prefix(s.drop_last(), k - 1);
            assert(s.drop_last().take(k - 1) =~= s.drop_last());
        }
    } else {
        lemma_digits_prefix(s.drop_last(), k);
        assert(s.drop_last().take(k) =~= s.take(k));
        lemma_digits_prefix(s.drop_last(), s.len() - 1);
        assert(s.drop_last().take(s.len() - 1) =~= s.drop_last());
    }
}

/// Whether `a` and `b` hold the same characters.
pub fn same_text(a: &str, b: &str) -> (r: bool)
    ensures
        r == (a@ == b@),
{
    let n = a.unicode_len();
    if n != b.unicode_len() {
        return false;
    }
    let mut i: usize = 0;
    while i < n
        invariant
            n == a@.len() == b@.len(),
            i <= n,
            forall|k: int| 0 <= k < i ==> a@[k] == b@[k],
        decreases n - i,
    {
        if a.get_char(i) != b.get_char(i) {
            return false;
        }
        i = i + 1;
    }
    assert(a@ =~= b@);
    true
}

/// Reads `t` as a decimal `i32`: an optional sign and one or more digits.
pub fn parse_i32(t: &str) -> (r: Option<i32>)
    ensures
        r == i32_value(t@),
{
    let n = t.unicode_len();
    if n == 0 {
        return None;
    }
    let first = t.get_char(0);
    let start: usize = if first == '-' || first == '+' { 1 } else { 0 };
    let ghost d = t@.skip(start as int);
    if start == 0 {
        assert(d =~= t@);
    }
    if start == n || !all_digits_from(t, start) {
        assert(!all_digits(d) && !all_digits(t@)) by {
            if start == 0 {
                assert(d =~= t@);
            } else {
                assert(!is_digit(t@[0]));
                if start < n {
                    let k = choose|k: int| start <= k < t@.len() && !is_digit(#[trigger] t@[k]);
                    assert(d[k - start] == t@[k]);
                }
            }
        }
        return None;
    }
    assert(all_digits(d)) by {
        assert forall|k: int| 0 <= k < d.len() implies is_digit(#[trigger] d[k]) by {
            assert(d[k] == t@[k + start]);
        }
    }
    let mut acc: i64 = 0;
    let mut i: usize = start;
    assert(d.take(0) =~= Seq::<char>::empty());
    while i < n
        invariant
            n == t@.len(),
            start <= i <= n,
            d == t@.skip(start as int),
            all_digits(d),
            n > 0,
            first == t@[0],
            start == (if first == '-' || first == '+' { 1usize } else { 0usize }),
            acc == digits_value(d.take(i - start)),
            0 <= acc <= 0x8000_0000,
        decreases n - i,
    {
        let c = t.get_char(i);
        assert(d[i - start] == c);
        assert(is_digit(d[i - start]));
        assert(d.take(i - start + 1).drop_last() =~= d.take(i - start));
        let next = acc * 10 + (c as u32 - '0' as u32) as i64;
        assert(d.take(i - start + 1).last() == c);
        assert(next == digits_value(d.take(i - start + 1)));
        i = i + 1;
        if next > 0x8000_0000 {
            proof {
                lemma_digits_prefix(d, i - start);
                if start == 1 {
                    assert(t@.drop_first() =~= d);
                } else {
                    assert(d =~= t@);
                }
                assert(digits_value(d) > 0x8000_0000);
                assert(decimal_value(t@) == Some(digits_value(d)) || decimal_value(t@) == Some(
                    -digits_value(d),
                ));
            }
            return None;
        }
        acc = next;
    }
    assert(d.take(n - start) =~= d);
    if start == 1 {
        assert(t@.drop_first() =~= d);
    }
    if first == '-' {
        Some((-acc) as i32)
    } else if acc > 0x7fff_ffff {
        None
    } else {
        Some(acc as i32)
    }
}

/// Whether every character of `t` from `from` on is a decimal digit.
fn all_digits_from(t: &str, from: usize) -> (r: bool)
    requires
        from <= t@.len(),
    ensures
        r == forall|k: int| from <= k < t@.len() ==> is_digit(#[trigger] t@[k]),
{
    let n = t.unicode_len();
    let mut i: usize = from;
    while i < n
        invariant
            n == t@.len(),
            from <= i <= n,
            forall|k: int| from <= k < i ==> is_digit(#[trigger] t@[k]),
        decreases n - i,
    {
        let c = t.get_char(i);
        if !('0' <= c && c <= '9') {
            return false;
        }
        i = i + 1;
    }
    true
}

/// Joins `ws` with one space between each two.
pub fn join_with_spaces(ws: &[String]) -> (r: String)
    ensures
        r@ == join_words(ws@.map_values(|w: String| w@)),
{
    let mut out = String::new();
    let mut i: usize = 0;
    while i < ws.len()
        invariant
            i <= ws@.len(),
            out@ == join_words(ws@.take(i as int).map_values(|w: String| w@)),
        decreases ws@.len() - i,
    {
        let ghost before = ws@.take(i as int).map_values(|w: String| w@);
        if i > 0 {
            out.append(" ");
        }
        out.append(ws[i].as_str());
        let ghost after = ws@.take(i + 1).map_values(|w: String| w@);
        assert(after.drop_last() =~= before);
        assert(after.last() == ws@[i as int]@);
        proof {
            reveal_strlit(" ");
        }
        i = i + 1;
    }
    assert(ws@.take(ws@.len() as int) =~= ws@);
    out
}

} // verus!
