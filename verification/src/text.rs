//! Small string utilities with exact specifications.

use vstd::prelude::*;
use vstd::string::StrSliceExecFns;

verus! {

/// Character view of a string slice, compared with `==` on views.
pub fn str_equal(a: &str, b: &str) -> (r: bool)
    ensures
        r == (a@ == b@),
{
    let sa: String = a.to_owned();
    let sb: String = b.to_owned();
    sa == sb
}

/// Owned copy of a string slice.
pub fn to_owned_string(a: &str) -> (r: String)
    ensures
        r@ == a@,
{
    a.to_owned()
}

/// Copy of a `String`.
pub fn copy_string(a: &String) -> (r: String)
    ensures
        r@ == a@,
{
    a.clone()
}

/// Copy of an optional `String`.
pub fn copy_opt_string(a: &Option<String>) -> (r: Option<String>)
    ensures
        r.deep_view() == a.deep_view(),
{
    match a {
        Some(s) => Some(s.clone()),
        None => None,
    }
}

/// Equality of two optional strings by their character views.
pub fn opt_string_equal(a: &Option<String>, b: &Option<String>) -> (r: bool)
    ensures
        r == (a.deep_view() == b.deep_view()),
{
    match a {
        Some(x) => match b {
            Some(y) => x.eq(y),
            None => false,
        },
        None => b.is_none(),
    }
}

/// Concatenation of two string slices.
pub fn concat(a: &str, b: &str) -> (r: String)
    ensures
        r@ == a@ + b@,
{
    let s: String = a.to_owned();
    s.concat(b)
}

/// The decimal digits of a natural number, most significant first.
pub open spec fn decimal(n: nat) -> Seq<char>
    decreases n,
{
    if n < 10 {
        seq![digit_char(n)]
    } else {
        decimal(n / 10).push(digit_char(n % 10))
    }
}

/// The ASCII digit for a value below ten.
pub open spec fn digit_char(d: nat) -> char {
    if d == 0 { '0' }
    else if d == 1 { '1' }
    else if d == 2 { '2' }
    else if d == 3 { '3' }
    else if d == 4 { '4' }
    else if d == 5 { '5' }
    else if d == 6 { '6' }
    else if d == 7 { '7' }
    else if d == 8 { '8' }
    else { '9' }
}

fn digit_str(d: u64) -> (r: &'static str)
    requires
        d < 10,
    ensures
        r@ == seq![digit_char(d as nat)],
{
    proof {
        reveal_strlit("0");
        reveal_strlit("1");
        reveal_strlit("2");
        reveal_strlit("3");
        reveal_strlit("4");
        reveal_strlit("5");
        reveal_strlit("6");
        reveal_strlit("7");
        reveal_strlit("8");
        reveal_strlit("9");
    }
    if d == 0 { "0" }
    else if d == 1 { "1" }
    else if d == 2 { "2" }
    else if d == 3 { "3" }
    else if d == 4 { "4" }
    else if d == 5 { "5" }
    else if d == 6 { "6" }
    else if d == 7 { "7" }
    else if d == 8 { "8" }
    else { "9" }
}

/// Decimal rendering of an unsigned integer, as `to_string` prints it.
pub fn u64_to_decimal(n: u64) -> (r: String)
    ensures
        r@ == decimal(n as nat),
    decreases n,
{
    if n < 10 {
        let s: String = digit_str(n).to_owned();
        s
    } else {
        let head = u64_to_decimal(n / 10);
        let d = digit_str(n % 10);
        let r = head.concat(d);
        r
    }
}

/// Decimal rendering of a signed integer, with a leading `-` when negative.
pub open spec fn signed_decimal(n: int) -> Seq<char> {
    if n < 0 {
        seq!['-'] + decimal((-n) as nat)
    } else {
        decimal(n as nat)
    }
}

/// Decimal rendering of an `i64`, as `to_string` prints it.
pub fn i64_to_decimal(n: i64) -> (r: String)
    ensures
        r@ == signed_decimal(n as int),
{
    if n < 0 {
        let m: u64 = if n == i64::MIN {
            9223372036854775808u64
        } else {
            (-n) as u64
        };
        let digits = u64_to_decimal(m);
        proof {
            reveal_strlit("-");
        }
        let minus: String = "-".to_owned();
        minus.concat(digits.as_str())
    } else {
        u64_to_decimal(n as u64)
    }
}


/// The characters of a string slice.
pub fn chars_of(s: &str) -> (r: Vec<char>)
    ensures
        r@ == s@,
{
    let n = s.unicode_len();
    let mut r: Vec<char> = Vec::new();
    for i in 0..n
        invariant
            n == s@.len(),
            r@ == s@.take(i as int),
    {
        let c = s.get_char(i);
        r.push(c);
        assert(r@ =~= s@.take(i + 1));
    }
    assert(r@ =~= s@);
    r
}

/// Characters Rust's `char::is_whitespace` accepts (the Unicode
/// `White_Space` property).
pub open spec fn is_whitespace(c: char) -> bool {
    ||| c == '\t'
    ||| c == '\n'
    ||| c == '\u{0B}'
    ||| c == '\u{0C}'
    ||| c == '\r'
    ||| c == ' '
    ||| c == '\u{85}'
    ||| c == '\u{A0}'
    ||| c == '\u{1680}'
    ||| ('\u{2000}' as u32 <= c as u32 && c as u32 <= '\u{200A}' as u32)
    ||| c == '\u{2028}'
    ||| c == '\u{2029}'
    ||| c == '\u{202F}'
    ||| c == '\u{205F}'
    ||| c == '\u{3000}'
}

/// Whether a character is whitespace, as `char::is_whitespace` says.
pub fn char_is_whitespace(c: char) -> (r: bool)
    ensures
        r == is_whitespace(c),
{
    c == '\t' || c == '\n' || c == '\u{0B}' || c == '\u{0C}' || c == '\r' || c == ' ' || c
        == '\u{85}' || c == '\u{A0}' || c == '\u{1680}' || ('\u{2000}' <= c && c <= '\u{200A}')
        || c == '\u{2028}' || c == '\u{2029}' || c == '\u{202F}' || c == '\u{205F}' || c
        == '\u{3000}'
}

/// `s` with leading and trailing whitespace removed, as `str::trim` does.
pub open spec fn trim(s: Seq<char>) -> Seq<char>
    decreases s.len(),
{
    if s.len() == 0 {
        s
    } else if is_whitespace(s[0]) {
        trim(s.drop_first())
    } else if is_whitespace(s.last()) {
        trim(s.drop_last())
    } else {
        s
    }
}

/// `s` split at every occurrence of `sep`, as `str::split` with a
/// character does: `n` separators give `n + 1` pieces.
pub open spec fn split_on(s: Seq<char>, sep: char) -> Seq<Seq<char>>
    decreases s.len(),
{
    if s.len() == 0 {
        seq![Seq::<char>::empty()]
    } else {
        let rest = split_on(s.drop_last(), sep);
        if s.last() == sep {
            rest.push(Seq::<char>::empty())
        } else {
            rest.update(rest.len() - 1, rest.last().push(s.last()))
        }
    }
}

/// A split always has at least one piece.
pub proof fn lemma_split_nonempty(s: Seq<char>, sep: char)
    ensures
        split_on(s, sep).len() >= 1,
    decreases s.len(),
{
    if s.len() > 0 {
        lemma_split_nonempty(s.drop_last(), sep);
    }
}

/// Trimming the piece `chars[start..end]`: the bounds of what is left.
fn trim_bounds(chars: &Vec<char>, start: usize, end: usize) -> (r: (usize, usize))
    requires
        start <= end <= chars.len(),
    ensures
        start <= r.0 <= r.1 <= end,
        chars@.subrange(r.0 as int, r.1 as int) == trim(chars@.subrange(start as int, end as int)),
    decreases end - start,
{
    let ghost seg = chars@.subrange(start as int, end as int);
    if start == end {
        assert(seg.len() == 0);
        (start, end)
    } else if char_is_whitespace(chars[start]) {
        assert(seg.drop_first() =~= chars@.subrange(start + 1, end as int));
        trim_bounds(chars, start + 1, end)
    } else if char_is_whitespace(chars[end - 1]) {
        assert(seg.drop_last() =~= chars@.subrange(start as int, end - 1));
        trim_bounds(chars, start, end - 1)
    } else {
        (start, end)
    }
}

/// Whether `chars[start..end]` equals `target`.
fn range_equals(chars: &Vec<char>, start: usize, end: usize, target: &Vec<char>) -> (r: bool)
    requires
        start <= end <= chars.len(),
    ensures
        r == (chars@.subrange(start as int, end as int) == target@),
{
    if end - start != target.len() {
        return false;
    }
    for i in 0..target.len()
        invariant
            end - start == target.len(),
            start <= end <= chars.len(),
            forall|j: int| 0 <= j < i ==> chars@[start + j] == #[trigger] target@[j],
    {
        if chars[start + i] != target[i] {
            assert(chars@.subrange(start as int, end as int)[i as int] != target@[i as int]);
            return false;
        }
    }
    assert(chars@.subrange(start as int, end as int) =~= target@);
    true
}

/// Whether some comma-separated entry of `list`, once trimmed, equals `a`
/// or `b`.
pub open spec fn some_entry_is(list: Seq<char>, a: Seq<char>, b: Seq<char>) -> bool {
    exists|i: int|
        0 <= i < split_on(list, ',').len() && (#[trigger] trim(split_on(list, ',')[i]) == a || trim(
            split_on(list, ',')[i],
        ) == b)
}

/// Whether some comma-separated entry of `list`, once trimmed, equals `a` or `b`.
pub fn comma_list_contains_either(list: &str, a: &str, b: &str) -> (r: bool)
    ensures
        r == some_entry_is(list@, a@, b@),
{
    let chars = chars_of(list);
    let ta = chars_of(a);
    let tb = chars_of(b);
    let n = chars.len();
    let mut start: usize = 0;
    let mut i: usize = 0;
    let ghost s = chars@;
    // Pieces of the prefix before `start` are complete; the piece being read
    // runs from `start` to `i`.
    proof {
        lemma_split_nonempty(s.take(0), ',');
        assert(s.take(0) =~= Seq::<char>::empty());
    }
    while i < n
        invariant
            s == chars@,
            s == list@,
            ta@ == a@,
            tb@ == b@,
            n == chars.len(),
            start <= i <= n,
            split_on(s.take(i as int), ',').len() >= 1,
            split_on(s.take(i as int), ',').last() == s.subrange(start as int, i as int),
            forall|k: int|
                0 <= k < split_on(s.take(i as int), ',').len() - 1 ==> !(#[trigger] trim(
                    split_on(s.take(i as int), ',')[k],
                ) == a@ || trim(split_on(s.take(i as int), ',')[k]) == b@),
        decreases n - i,
    {
        let ghost prev = split_on(s.take(i as int), ',');
        assert(s.take(i + 1).drop_last() =~= s.take(i as int));
        assert(s.take(i + 1).last() == s[i as int]);
        if chars[i] == ',' {
            let ghost cur = split_on(s.take(i + 1), ',');
            assert(cur == prev.push(Seq::<char>::empty()));
            let (ts, te) = trim_bounds(&chars, start, i);
            let ea = range_equals(&chars, ts, te, &ta);
            let eb = range_equals(&chars, ts, te, &tb);
            if ea || eb {
                proof {
                    let k = prev.len() - 1;
                    assert(cur[k] == prev[k]);
                    assert(prev[k] == s.subrange(start as int, i as int));
                    assert(trim(prev[k]) == s.subrange(ts as int, te as int));
                    lemma_split_prefix(s, i + 1, k);
                    assert(split_on(s, ',')[k] == cur[k]);
                    assert(ea ==> s.subrange(ts as int, te as int) == a@);
                    assert(eb ==> s.subrange(ts as int, te as int) == b@);
                    assert(trim(split_on(s, ',')[k]) == a@ || trim(split_on(s, ',')[k]) == b@);
                }
                return true;
            }
            start = i + 1;
            proof {
                assert(s.subrange(start as int, (i + 1) as int) =~= Seq::<char>::empty());
                assert forall|k: int| 0 <= k < cur.len() - 1 implies !(#[trigger] trim(cur[k]) == a@ || trim(cur[k]) == b@) by {
                    assert(cur[k] == prev[k]);
                }
            }
        } else {
            let ghost cur = split_on(s.take(i + 1), ',');
            proof {
                lemma_split_nonempty(s.take(i as int), ',');
                assert(cur == prev.update(prev.len() - 1, prev.last().push(s[i as int])));
                assert(s.subrange(start as int, (i + 1) as int) =~= s.subrange(start as int, i as int).push(
                    s[i as int],
                ));
                assert forall|k: int| 0 <= k < cur.len() - 1 implies !(#[trigger] trim(cur[k]) == a@ || trim(cur[k]) == b@) by {
                    assert(cur[k] == prev[k]);
                }
            }
        }
        i = i + 1;
    }
    assert(s.take(n as int) =~= s);
    let (ts, te) = trim_bounds(&chars, start, n);
    let r = range_equals(&chars, ts, te, &ta) || range_equals(&chars, ts, te, &tb);
    proof {
        let pieces = split_on(s, ',');
        if !r {
            assert forall|k: int| 0 <= k < pieces.len() implies !(#[trigger] trim(pieces[k]) == a@ || trim(pieces[k]) == b@) by {
                if k < pieces.len() - 1 {
                } else {
                    assert(pieces[k] == s.subrange(start as int, n as int));
                }
            }
        } else {
            assert(pieces[pieces.len() - 1] == s.subrange(start as int, n as int));
            assert(trim(pieces[pieces.len() - 1]) == a@ || trim(pieces[pieces.len() - 1]) == b@);
        }
    }
    r
}

/// The pieces of a prefix that ends just after a separator are, apart from
/// the new empty last piece, pieces of the whole string.
proof fn lemma_split_prefix(s: Seq<char>, p: int, k: int)
    requires
        0 < p <= s.len(),
        s[p - 1] == ',',
        0 <= k < split_on(s.take(p), ',').len() - 1,
    ensures
        split_on(s, ',').len() >= split_on(s.take(p), ',').len(),
        split_on(s, ',')[k] == split_on(s.take(p), ',')[k],
    decreases s.len() - p,
{
    lemma_split_nonempty(s.take(p), ',');
    if p == s.len() {
        assert(s.take(p) =~= s);
    } else {
        let t = s.take(s.len() - 1);
        assert(s.drop_last() =~= t);
        assert(t.take(p) =~= s.take(p));
        lemma_split_prefix(t, p, k);
        lemma_split_nonempty(t, ',');
        let rest = split_on(t, ',');
        if s.last() == ',' {
        } else {
            if k == rest.len() - 1 {
                // the last piece of t is the one still growing: it cannot be
                // a complete piece of the prefix
                lemma_split_last_grows(t, p, k);
            }
        }
    }
}

/// A complete piece of a prefix is never the last piece of a longer string.
proof fn lemma_split_last_grows(t: Seq<char>, p: int, k: int)
    requires
        0 < p <= t.len(),
        t[p - 1] == ',',
        0 <= k < split_on(t.take(p), ',').len() - 1,
    ensures
        k < split_on(t, ',').len() - 1,
    decreases t.len() - p,
{
    lemma_split_nonempty(t.take(p), ',');
    if p == t.len() {
        assert(t.take(p) =~= t);
    } else {
        let u = t.take(t.len() - 1);
        assert(t.drop_last() =~= u);
        assert(u.take(p) =~= t.take(p));
        lemma_split_last_grows(u, p, k);
        lemma_split_nonempty(u, ',');
    }
}


/// Lexicographic order of character sequences by code point, which is the
/// order `<` gives on `str` (UTF-8 preserves code point order).
pub open spec fn seq_lt(a: Seq<char>, b: Seq<char>) -> bool
    decreases a.len(),
{
    if a.len() == 0 {
        b.len() > 0
    } else if b.len() == 0 {
        false
    } else if a[0] != b[0] {
        a[0] < b[0]
    } else {
        seq_lt(a.drop_first(), b.drop_first())
    }
}

/// Of two different sequences exactly one is below the other; no sequence
/// is below itself.
pub proof fn lemma_seq_lt_total(a: Seq<char>, b: Seq<char>)
    ensures
        !seq_lt(a, a),
        a != b ==> (seq_lt(a, b) != seq_lt(b, a)),
    decreases a.len(),
{
    if a.len() > 0 {
        lemma_seq_lt_total(a.drop_first(), a.drop_first());
    }
    if a.len() > 0 && b.len() > 0 && a[0] == b[0] {
        lemma_seq_lt_total(a.drop_first(), b.drop_first());
        if a != b {
            assert(a =~= seq![a[0]] + a.drop_first());
            assert(b =~= seq![b[0]] + b.drop_first());
            assert(a.drop_first() != b.drop_first());
        }
    } else if a.len() == 0 && b.len() == 0 {
        assert(a =~= b);
    }
}

/// The order on character sequences is transitive.
pub proof fn lemma_seq_lt_transitive(a: Seq<char>, b: Seq<char>, c: Seq<char>)
    requires
        seq_lt(a, b),
        seq_lt(b, c),
    ensures
        seq_lt(a, c),
    decreases a.len(),
{
    if a.len() > 0 && a[0] == b[0] && b[0] == c[0] {
        lemma_seq_lt_transitive(a.drop_first(), b.drop_first(), c.drop_first());
    }
}

/// Whether `a` comes before `b`, as `<` on `str` says.
pub fn str_less(a: &str, b: &str) -> (r: bool)
    ensures
        r == seq_lt(a@, b@),
{
    let ca = chars_of(a);
    let cb = chars_of(b);
    let mut i: usize = 0;
    assert(ca@.skip(0) =~= ca@);
    assert(cb@.skip(0) =~= cb@);
    while i < ca.len() && i < cb.len()
        invariant
            ca@ == a@,
            cb@ == b@,
            i <= ca.len(),
            i <= cb.len(),
            seq_lt(a@, b@) == seq_lt(ca@.skip(i as int), cb@.skip(i as int)),
        decreases ca.len() - i,
    {
        let x = ca[i];
        let y = cb[i];
        assert(ca@.skip(i as int)[0] == x);
        assert(cb@.skip(i as int)[0] == y);
        if x != y {
            return x < y;
        }
        assert(ca@.skip(i as int).drop_first() =~= ca@.skip(i + 1));
        assert(cb@.skip(i as int).drop_first() =~= cb@.skip(i + 1));
        i = i + 1;
    }
    cb.len() > i
}

} // verus!
