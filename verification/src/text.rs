use vstd::prelude::*;

verus! {

/// Appends one character to a string.
///
/// Trusted: wraps `String::push`, which std documents as appending the
/// given `char` to the end of the string.
#[verifier::external_body]
pub(crate) fn push_char(s: &mut String, c: char)
    ensures
        final(s)@ == old(s)@.push(c),
{
    s.push(c)
}

/// The characters of a string slice, in order.
pub fn chars_of(s: &str) -> (res: Vec<char>)
    ensures
        res@ == s@,
{
    let mut res: Vec<char> = Vec::new();
    for c in it: s.chars()
        invariant
            res@ == it.seq().take(it.index() as int),
            it.seq() == s@,
    {
        res.push(c);
    }
    res
}

/// A string holding exactly the given characters.
pub fn string_of(chars: &Vec<char>) -> (res: String)
    ensures
        res@ == chars@,
{
    let mut res = String::new();
    let n = chars.len();
    for i in 0..n
        invariant
            n == chars.len(),
            res@ == chars@.take(i as int),
    {
        push_char(&mut res, chars[i]);
    }
    res
}

/// The character of a decimal digit.
pub open spec fn digit_char(d: nat) -> char
    recommends
        d < 10,
{
    ((48 + d) as u32) as char
}

/// The decimal notation of a natural number, without leading zeros.
pub open spec fn decimal(n: nat) -> Seq<char>
    decreases n,
{
    if n < 10 {
        seq![digit_char(n)]
    } else {
        decimal(n / 10).push(digit_char(n % 10))
    }
}

fn digit(d: usize) -> (c: char)
    requires
        d < 10,
    ensures
        c == digit_char(d as nat),
{
    let c: char = match d {
        0 => '0',
        1 => '1',
        2 => '2',
        3 => '3',
        4 => '4',
        5 => '5',
        6 => '6',
        7 => '7',
        8 => '8',
        _ => '9',
    };
    c
}

/// Writes a number in decimal, as `format!("{}", n)` does.
pub fn decimal_string(n: usize) -> (res: String)
    ensures
        res@ == decimal(n as nat),
{
    // the digits, least significant first
    let mut rev: Vec<char> = Vec::new();
    let mut m: usize = n;
    while m >= 10
        invariant
            decimal(n as nat) == decimal(m as nat) + rev@.reverse(),
        decreases m,
    {
        let c = digit(m % 10);
        rev.push(c);
        m = m / 10;
    }
    let c = digit(m);
    rev.push(c);
    let mut res = String::new();
    let k = rev.len();
    let mut i = k;
    while i > 0
        invariant
            i <= k,
            k == rev.len(),
            res@ =~= rev@.reverse().take((k - i) as int),
        decreases i,
    {
        i = i - 1;
        push_char(&mut res, rev[i]);
    }
    res
}

/// Whether a character has the Unicode `White_Space` property, which is what
/// `char::is_whitespace` tests.
pub open spec fn is_space(c: char) -> bool {
    ||| 0x09 <= c as u32 <= 0x0d
    ||| c as u32 == 0x20
    ||| c as u32 == 0x85
    ||| c as u32 == 0xa0
    ||| c as u32 == 0x1680
    ||| 0x2000 <= c as u32 <= 0x200a
    ||| c as u32 == 0x2028
    ||| c as u32 == 0x2029
    ||| c as u32 == 0x202f
    ||| c as u32 == 0x205f
    ||| c as u32 == 0x3000
}

/// Tests a character for the Unicode `White_Space` property.
pub fn is_space_char(c: char) -> (res: bool)
    ensures
        res == is_space(c),
{
    let u: u32 = c as u32;
    (0x09 <= u && u <= 0x0d) || u == 0x20 || u == 0x85 || u == 0xa0 || u == 0x1680 || (0x2000
        <= u && u <= 0x200a) || u == 0x2028 || u == 0x2029 || u == 0x202f || u == 0x205f || u
        == 0x3000
}

/// The maximal runs of non-whitespace characters of `s`, in order: what
/// `str::split_whitespace` yields.
pub open spec fn words(s: Seq<char>) -> Seq<Seq<char>>
    decreases s.len(),
{
    if s.len() == 0 {
        seq![]
    } else {
        let w = words(s.drop_last());
        let c = s.last();
        if is_space(c) {
            w
        } else if s.len() >= 2 && !is_space(s[s.len() - 2]) {
            w.drop_last().push(w.last().push(c))
        } else {
            w.push(seq![c])
        }
    }
}

/// The views of a sequence of strings.
pub open spec fn views(v: Seq<String>) -> Seq<Seq<char>> {
    v.map_values(|x: String| x@)
}

/// The views of a sequence of string slices.
pub open spec fn str_views(v: Seq<&str>) -> Seq<Seq<char>> {
    v.map_values(|x: &str| x@)
}

/// Splits a line into its whitespace-separated words.
pub fn split_words(s: &str) -> (res: Vec<String>)
    ensures
        views(res@) == words(s@),
{
    let chars = chars_of(s);
    let n = chars.len();
    let mut done: Vec<String> = Vec::new();
    let mut cur: Vec<char> = Vec::new();
    let mut in_word = false;
    for i in 0..n
        invariant
            n == chars@.len(),
            chars@ == s@,
            in_word == (i > 0 && !is_space(chars@[i - 1])),
            in_word ==> cur@.len() > 0,
            words(chars@.take(i as int)) == (if in_word {
                views(done@).push(cur@)
            } else {
                views(done@)
            }),
    {
        let c = chars[i];
        assert(chars@.take(i + 1).drop_last() == chars@.take(i as int));
        if is_space_char(c) {
            if in_word {
                let w = string_of(&cur);
                done.push(w);
                cur = Vec::new();
            }
            in_word = false;
        } else {
            if in_word {
                cur.push(c);
            } else {
                cur = Vec::new();
                cur.push(c);
            }
            in_word = true;
        }
    }
    assert(chars@.take(n as int) == chars@);
    if in_word {
        let w = string_of(&cur);
        done.push(w);
    }
    done
}

/// `parts` joined, with `sep` between each two.
pub open spec fn joined(parts: Seq<Seq<char>>, sep: Seq<char>) -> Seq<char>
    decreases parts.len(),
{
    if parts.len() == 0 {
        seq![]
    } else if parts.len() == 1 {
        parts[0]
    } else {
        joined(parts.drop_last(), sep) + sep + parts.last()
    }
}

/// Joins string slices with a separator, as `[&str]::join` does.
pub fn join_strs(parts: &Vec<&str>, sep: &str) -> (res: String)
    ensures
        res@ == joined(str_views(parts@), sep@),
{
    let mut res = String::new();
    let n = parts.len();
    let ghost all = str_views(parts@);
    for i in 0..n
        invariant
            n == parts@.len(),
            all == str_views(parts@),
            res@ == joined(all.take(i as int), sep@),
    {
        assert(all.take(i + 1).drop_last() == all.take(i as int));
        if i != 0 {
            res.append(sep);
        }
        res.append(parts[i]);
    }
    assert(all.take(n as int) == all);
    res
}

/// A line has no words exactly when it is blank: every character is
/// whitespace (so trimming it leaves nothing).
pub proof fn lemma_no_words_iff_blank(s: Seq<char>)
    ensures
        words(s).len() == 0 <==> (forall|i: int| 0 <= i < s.len() ==> is_space(#[trigger] s[i])),
    decreases s.len(),
{
    if s.len() > 0 {
        let t = s.drop_last();
        lemma_no_words_iff_blank(t);
        assert(forall|i: int| 0 <= i < t.len() ==> t[i] == s[i]);
    }
}

/// Every word is non-empty and holds no whitespace.
pub proof fn lemma_words_are_solid(s: Seq<char>)
    ensures
        forall|k: int|
            0 <= k < words(s).len() ==> (#[trigger] words(s)[k]).len() > 0 && forall|j: int|
                0 <= j < words(s)[k].len() ==> !is_space(#[trigger] words(s)[k][j]),
    decreases s.len(),
{
    if s.len() > 0 {
        let t = s.drop_last();
        lemma_words_are_solid(t);
        let w = words(t);
        let c = s.last();
        if !is_space(c) && s.len() >= 2 && !is_space(s[s.len() - 2]) {
            lemma_no_words_iff_blank(t);
            let r = w.drop_last().push(w.last().push(c));
            assert forall|k: int| 0 <= k < r.len() implies (#[trigger] r[k]).len() > 0 && forall|
                j: int,
            | 0 <= j < r[k].len() ==> !is_space(#[trigger] r[k][j]) by {
                if k == r.len() - 1 {
                    assert forall|j: int| 0 <= j < r[k].len() implies !is_space(
                        #[trigger] r[k][j],
                    ) by {}
                }
            }
        }
    }
}

/// The number of bytes of a character in UTF-8, as `char::len_utf8` gives.
pub open spec fn char_len(c: char) -> nat {
    if (c as u32) < 0x80 {
        1
    } else if (c as u32) < 0x800 {
        2
    } else if (c as u32) < 0x10000 {
        3
    } else {
        4
    }
}

/// The number of bytes of a line in UTF-8, as `str::len` gives.
pub open spec fn byte_len(s: Seq<char>) -> nat
    decreases s.len(),
{
    if s.len() == 0 {
        0
    } else {
        byte_len(s.drop_last()) + char_len(s.last())
    }
}

/// The index of the character that starts at byte `b` of the line (the
/// length of the line where `b` is its end), or `None` where `b` is not on a
/// character boundary.
pub open spec fn char_index(s: Seq<char>, b: int) -> Option<int>
    decreases s.len(),
{
    if b == byte_len(s) {
        Some(s.len() as int)
    } else if s.len() == 0 {
        None
    } else {
        char_index(s.drop_last(), b)
    }
}

/// The bytes of two lines put together are the bytes of each.
pub proof fn lemma_byte_len_concat(a: Seq<char>, b: Seq<char>)
    ensures
        byte_len(a + b) == byte_len(a) + byte_len(b),
    decreases b.len(),
{
    if b.len() == 0 {
        assert(a + b == a);
    } else {
        assert((a + b).drop_last() == a + b.drop_last());
        lemma_byte_len_concat(a, b.drop_last());
    }
}

/// A longer start of a line holds more bytes.
pub proof fn lemma_byte_len_prefix(s: Seq<char>, i: int, j: int)
    requires
        0 <= i <= j <= s.len(),
    ensures
        byte_len(s.take(i)) + (j - i) <= byte_len(s.take(j)),
    decreases j - i,
{
    if i < j {
        lemma_byte_len_prefix(s, i, j - 1);
        assert(s.take(j).drop_last() == s.take(j - 1));
    }
}

/// `char_index` finds the character that starts at a byte, and only that.
pub proof fn lemma_char_index(s: Seq<char>, b: int)
    ensures
        char_index(s, b) matches Some(k) ==> 0 <= k <= s.len() && byte_len(s.take(k)) == b,
        forall|k: int| 0 <= k <= s.len() && byte_len(#[trigger] s.take(k)) == b ==> char_index(s, b) == Some(k),
    decreases s.len(),
{
    assert(s.take(s.len() as int) == s);
    if s.len() > 0 {
        let t = s.drop_last();
        lemma_char_index(t, b);
        assert forall|k: int| 0 <= k < s.len() implies #[trigger] s.take(k) == t.take(k) by {}
        assert forall|k: int| 0 <= k <= s.len() && byte_len(#[trigger] s.take(k)) == b implies char_index(s, b) == Some(k) by {
            if k < s.len() {
                assert(s.take(k) == t.take(k));
                lemma_byte_len_prefix(s, k, s.len() as int);
            }
        }
    }
}

/// The bytes of a line after a character is put in or taken out.
pub proof fn lemma_byte_len_edit(s: Seq<char>, k: int, c: char)
    requires
        0 <= k <= s.len(),
    ensures
        byte_len(s.insert(k, c)) == byte_len(s) + char_len(c),
        k < s.len() ==> byte_len(s.remove(k)) + char_len(s[k]) == byte_len(s),
        k < s.len() ==> byte_len(s.take(k + 1)) == byte_len(s.take(k)) + char_len(s[k]),
{
    let a = s.take(k);
    let b = s.skip(k);
    assert(s == a + b);
    lemma_byte_len_concat(a, b);
    assert(s.insert(k, c) == a + (seq![c] + b));
    lemma_byte_len_concat(seq![c], b);
    lemma_byte_len_concat(a, seq![c] + b);
    assert(byte_len(seq![c]) == char_len(c)) by {
        assert(seq![c].drop_last() == Seq::<char>::empty());
        assert(byte_len(Seq::<char>::empty()) == 0);
    }
    if k < s.len() {
        let b1 = s.skip(k + 1);
        assert(b == seq![s[k]] + b1);
        lemma_byte_len_concat(seq![s[k]], b1);
        assert(byte_len(seq![s[k]]) == char_len(s[k])) by {
            assert(seq![s[k]].drop_last() == Seq::<char>::empty());
            assert(byte_len(Seq::<char>::empty()) == 0);
        }
        assert(s.remove(k) == a + b1);
        lemma_byte_len_concat(a, b1);
        assert(s.take(k + 1).drop_last() == a);
    }
}

/// The number of bytes of a character in UTF-8.
pub fn char_bytes(c: char) -> (res: usize)
    ensures
        res == char_len(c),
{
    let u: u32 = c as u32;
    if u < 0x80 {
        1
    } else if u < 0x800 {
        2
    } else if u < 0x10000 {
        3
    } else {
        4
    }
}

/// The number of bytes of a line in UTF-8, or `None` where it exceeds what
/// a `usize` holds.
pub fn line_bytes(v: &Vec<char>) -> (res: Option<usize>)
    ensures
        match res {
            Some(n) => n == byte_len(v@),
            None => byte_len(v@) > usize::MAX,
        },
{
    let n = v.len();
    let mut total: usize = 0;
    for i in 0..n
        invariant
            n == v@.len(),
            total == byte_len(v@.take(i as int)),
    {
        assert(v@.take(i + 1).drop_last() == v@.take(i as int));
        let c = char_bytes(v[i]);
        match total.checked_add(c) {
            Some(t) => {
                total = t;
            },
            None => {
                proof {
                    lemma_byte_len_prefix(v@, i + 1, n as int);
                    assert(v@.take(n as int) == v@);
                }
                return None;
            },
        }
    }
    assert(v@.take(n as int) == v@);
    Some(total)
}

/// The index of the character that starts at byte `b` of a line, or `None`
/// where `b` is not on a character boundary.
pub fn char_index_of(v: &Vec<char>, b: usize) -> (res: Option<usize>)
    requires
        byte_len(v@) <= usize::MAX,
    ensures
        match res {
            Some(k) => char_index(v@, b as int) == Some(k as int),
            None => char_index(v@, b as int) is None,
        },
{
    proof {
        lemma_char_index(v@, b as int);
    }
    let n = v.len();
    let mut total: usize = 0;
    let mut i: usize = 0;
    while i < n && total < b
        invariant
            i <= n,
            n == v@.len(),
            byte_len(v@) <= usize::MAX,
            total == byte_len(v@.take(i as int)),
            forall|k: int| 0 <= k < i ==> byte_len(#[trigger] v@.take(k)) < b,
            forall|k: int|
                0 <= k <= v@.len() && byte_len(#[trigger] v@.take(k)) == b ==> char_index(v@, b as int) == Some(k),
            char_index(v@, b as int) matches Some(k) ==> 0 <= k <= v@.len() && byte_len(v@.take(k)) == b,
        decreases n - i,
    {
        proof {
            lemma_byte_len_prefix(v@, i + 1, n as int);
            assert(v@.take(n as int) == v@);
            assert(v@.take(i + 1).drop_last() == v@.take(i as int));
        }
        total = total + char_bytes(v[i]);
        i = i + 1;
    }
    if total == b {
        Some(i)
    } else {
        proof {
            assert forall|k: int| 0 <= k <= v@.len() implies byte_len(#[trigger] v@.take(k)) != b by {
                if k > i {
                    lemma_byte_len_prefix(v@, i as int, k);
                }
            }
        }
        None
    }
}

/// A run of characters without whitespace is one word, whole, however long.
pub proof fn lemma_solid_run_is_one_word(w: Seq<char>)
    requires
        w.len() > 0,
        forall|i: int| 0 <= i < w.len() ==> !is_space(#[trigger] w[i]),
    ensures
        words(w) == seq![w],
    decreases w.len(),
{
    let t = w.drop_last();
    if t.len() > 0 {
        lemma_solid_run_is_one_word(t);
        assert(t.push(w.last()) == w);
    } else {
        assert(words(t) == Seq::<Seq<char>>::empty());
        assert(seq![w.last()] == w);
    }
}

/// A whitespace character splits a line: the words of the line are the
/// words before it followed by the words after it.
pub proof fn lemma_space_splits_words(a: Seq<char>, c: char, b: Seq<char>)
    requires
        is_space(c),
    ensures
        words(a + seq![c] + b) == words(a) + words(b),
    decreases b.len(),
{
    let s = a + seq![c] + b;
    if b.len() == 0 {
        assert(s.drop_last() == a);
        assert(words(b) == Seq::<Seq<char>>::empty());
        assert(words(a) + words(b) == words(a));
    } else {
        let x = b.last();
        let b1 = b.drop_last();
        lemma_space_splits_words(a, c, b1);
        assert(s.drop_last() == a + seq![c] + b1);
        assert(s.last() == x);
        let wa = words(a);
        let v = words(b1);
        if is_space(x) {
        } else if b1.len() > 0 && !is_space(b1.last()) {
            assert(s[s.len() - 2] == b1.last());
            assert(b[b.len() - 2] == b1.last());
            lemma_no_words_iff_blank(b1);
            assert(v.len() > 0);
            assert((wa + v).drop_last().push((wa + v).last().push(x)) == wa + v.drop_last().push(
                v.last().push(x),
            ));
        } else {
            if b1.len() > 0 {
                assert(s[s.len() - 2] == b1.last());
                assert(b[b.len() - 2] == b1.last());
            } else {
                assert(s[s.len() - 2] == c);
            }
            assert((wa + v).push(seq![x]) == wa + v.push(seq![x]));
        }
    }
}

/// A line of whitespace only has no words.
pub proof fn lemma_blank_has_no_words(s: Seq<char>)
    requires
        forall|i: int| 0 <= i < s.len() ==> is_space(#[trigger] s[i]),
    ensures
        words(s) == Seq::<Seq<char>>::empty(),
{
    lemma_no_words_iff_blank(s);
}

/// The number that a string of decimal digits stands for.
pub open spec fn digits_value(s: Seq<char>) -> int
    decreases s.len(),
{
    if s.len() == 0 {
        0
    } else {
        digits_value(s.drop_last()) * 10 + (s.last() as u32 - 48)
    }
}

/// The decimal form of a number reads back as that number, holds digits
/// only, and starts with a zero only where it is the number zero.
pub proof fn lemma_decimal_reads_back(n: nat)
    ensures
        digits_value(decimal(n)) == n,
        decimal(n).len() > 0,
        forall|i: int| 0 <= i < decimal(n).len() ==> 48 <= #[trigger] decimal(n)[i] as u32 <= 57,
        decimal(n)[0] == '0' ==> n == 0,
    decreases n,
{
    let r = n % 10;
    assert(digit_char(r) as u32 == 48 + r);
    if n < 10 {
        assert(decimal(n).drop_last() == Seq::<char>::empty());
        assert(digits_value(Seq::<char>::empty()) == 0);
    } else {
        lemma_decimal_reads_back(n / 10);
        let d = decimal(n / 10);
        assert(decimal(n).drop_last() == d);
        assert((n / 10) * 10 + n % 10 == n) by (nonlinear_arith);
        assert forall|i: int| 0 <= i < decimal(n).len() implies 48 <= #[trigger] decimal(n)[i] as u32 <= 57 by {
            if i < d.len() {
                assert(decimal(n)[i] == d[i]);
            }
        }
        assert(decimal(n)[0] == d[0]);
    }
}

/// Joining two non-empty lists puts the separator once between their joins.
pub proof fn lemma_joined_concat(a: Seq<Seq<char>>, b: Seq<Seq<char>>, sep: Seq<char>)
    requires
        a.len() > 0,
        b.len() > 0,
    ensures
        joined(a + b, sep) == joined(a, sep) + sep + joined(b, sep),
    decreases b.len(),
{
    if b.len() == 1 {
        assert((a + b).drop_last() == a);
    } else {
        lemma_joined_concat(a, b.drop_last(), sep);
        assert((a + b).drop_last() == a + b.drop_last());
    }
}

} // verus!
