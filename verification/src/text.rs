//! Character-level text handling for what the kernel and `nvidia-smi` print:
//! trimming, searching, comparing and the numeric prefix of a field.

use vstd::prelude::*;

verus! {

/// The Unicode `White_Space` property, which is what `char::is_whitespace`
/// and `str::trim` go by.
pub open spec fn is_white_space(c: char) -> bool {
    let u = c as u32;
    ||| 0x09 <= u <= 0x0D
    ||| u == 0x20
    ||| u == 0x85
    ||| u == 0xA0
    ||| u == 0x1680
    ||| 0x2000 <= u <= 0x200A
    ||| u == 0x2028
    ||| u == 0x2029
    ||| u == 0x202F
    ||| u == 0x205F
    ||| u == 0x3000
}

/// `s` without its leading white space.
pub open spec fn trim_start(s: Seq<char>) -> Seq<char>
    decreases s.len(),
{
    if s.len() > 0 && is_white_space(s[0]) {
        trim_start(s.drop_first())
    } else {
        s
    }
}

/// `s` without its trailing white space.
pub open spec fn trim_end(s: Seq<char>) -> Seq<char>
    decreases s.len(),
{
    if s.len() > 0 && is_white_space(s.last()) {
        trim_end(s.drop_last())
    } else {
        s
    }
}

/// `s` without leading or trailing white space.
pub open spec fn trimmed(s: Seq<char>) -> Seq<char> {
    trim_end(trim_start(s))
}

/// How many characters of `s` come before the first `c` (all of them if there
/// is none).
pub open spec fn span_until(s: Seq<char>, c: char) -> nat
    decreases s.len(),
{
    if s.len() == 0 || s[0] == c {
        0
    } else {
        1 + span_until(s.drop_first(), c)
    }
}

/// A character that can belong to a number as `nvidia-smi` prints it.
pub open spec fn is_number_char(c: char) -> bool {
    ('0' <= c && c <= '9') || c == '.' || c == '-'
}

/// How many characters at the start of `s` can belong to a number.
pub open spec fn number_span(s: Seq<char>) -> nat
    decreases s.len(),
{
    if s.len() > 0 && is_number_char(s[0]) {
        1 + number_span(s.drop_first())
    } else {
        0
    }
}

/// The number at the start of a field, with surrounding white space removed
/// and any trailing unit cut off.
pub open spec fn number_prefix(field: Seq<char>) -> Seq<char> {
    let t = trimmed(field);
    t.take(number_span(t) as int)
}

pub proof fn lemma_span_until_bounds(s: Seq<char>, c: char)
    ensures
        span_until(s, c) <= s.len(),
        span_until(s, c) < s.len() <==> s.contains(c),
        span_until(s, c) < s.len() ==> s[span_until(s, c) as int] == c,
        forall|j: int| 0 <= j < span_until(s, c) ==> s[j] != c,
    decreases s.len(),
{
    if s.len() > 0 && s[0] != c {
        lemma_span_until_bounds(s.drop_first(), c);
        if s.contains(c) {
            let j = choose|j: int| 0 <= j < s.len() && s[j] == c;
            assert(s.drop_first()[j - 1] == c);
        }
        if s.drop_first().contains(c) {
            let j = choose|j: int| 0 <= j < s.drop_first().len() && s.drop_first()[j] == c;
            assert(s[j + 1] == c);
        }
        assert forall|j: int| 0 <= j < span_until(s, c) implies s[j] != c by {
            if j > 0 {
                assert(s[j] == s.drop_first()[j - 1]);
            }
        }
    } else if s.len() > 0 {
        assert(s[0] == c);
    }
}

/// The characters a number is read from are exactly the ASCII digits, the
/// decimal point and the minus sign; everything else ends a number.
pub proof fn lemma_number_chars(c: char)
    ensures
        ('0' <= c && c <= '9') ==> is_number_char(c),
        is_number_char('.') && is_number_char('-'),
        is_number_char(c) ==> ('0' <= c && c <= '9') || c == '.' || c == '-',
{
}

/// A run of digits, points and minus signs followed by anything that cannot
/// belong to a number (a space, a unit, the end) is read in full: the number
/// at the start of `digits + rest` is all of `digits`.
pub proof fn lemma_number_span_of_digits(digits: Seq<char>, rest: Seq<char>)
    requires
        forall|i: int|
            0 <= i < digits.len() ==> ('0' <= #[trigger] digits[i] && digits[i] <= '9')
                || digits[i] == '.' || digits[i] == '-',
        rest.len() > 0 ==> !(('0' <= rest[0] && rest[0] <= '9') || rest[0] == '.' || rest[0]
            == '-'),
    ensures
        number_span(digits + rest) == digits.len(),
        (digits + rest).take(number_span(digits + rest) as int) == digits,
    decreases digits.len(),
{
    let whole = digits + rest;
    if digits.len() == 0 {
        assert(whole =~= rest);
    } else {
        assert(whole[0] == digits[0]);
        let tail = digits.drop_first();
        assert forall|i: int| 0 <= i < tail.len() implies ('0' <= #[trigger] tail[i] && tail[i]
            <= '9') || tail[i] == '.' || tail[i] == '-' by {
            assert(tail[i] == digits[i + 1]);
        }
        lemma_number_span_of_digits(tail, rest);
        assert(whole.drop_first() =~= tail + rest);
    }
    assert(whole.take(digits.len() as int) =~= digits);
}

/// White space includes the blank, tab, line feed and carriage return that
/// sysfs files and `nvidia-smi` rows end in, and never a character that can
/// start a number, a letter or a comma.
pub proof fn lemma_white_space_examples(c: char)
    ensures
        is_white_space(' ') && is_white_space('\t') && is_white_space('\n') && is_white_space('\r'),
        is_number_char(c) ==> !is_white_space(c),
        ('a' <= c && c <= 'z') || ('A' <= c && c <= 'Z') || c == ',' || c == '%' ==> !is_white_space(c),
{
}

proof fn lemma_trim_start_shape(s: Seq<char>) -> (a: int)
    ensures
        0 <= a <= s.len(),
        trim_start(s) == s.subrange(a, s.len() as int),
        forall|i: int| 0 <= i < a ==> is_white_space(#[trigger] s[i]),
        a < s.len() ==> !is_white_space(s[a]),
    decreases s.len(),
{
    if s.len() > 0 && is_white_space(s[0]) {
        let a0 = lemma_trim_start_shape(s.drop_first());
        assert forall|i: int| 0 <= i < a0 + 1 implies is_white_space(#[trigger] s[i]) by {
            if i > 0 {
                assert(s[i] == s.drop_first()[i - 1]);
            }
        }
        assert(s.drop_first().subrange(a0, s.len() - 1) =~= s.subrange(a0 + 1, s.len() as int));
        a0 + 1
    } else {
        assert(s.subrange(0, s.len() as int) =~= s);
        0
    }
}

proof fn lemma_trim_end_shape(s: Seq<char>) -> (b: int)
    ensures
        0 <= b <= s.len(),
        trim_end(s) == s.subrange(0, b),
        forall|i: int| b <= i < s.len() ==> is_white_space(#[trigger] s[i]),
        b > 0 ==> !is_white_space(s[b - 1]),
    decreases s.len(),
{
    if s.len() > 0 && is_white_space(s.last()) {
        let b0 = lemma_trim_end_shape(s.drop_last());
        assert forall|i: int| b0 <= i < s.len() implies is_white_space(#[trigger] s[i]) by {
            if i < s.len() - 1 {
                assert(s[i] == s.drop_last()[i]);
            }
        }
        assert(s.drop_last().subrange(0, b0) =~= s.subrange(0, b0));
        b0
    } else {
        assert(s.subrange(0, s.len() as int) =~= s);
        s.len() as int
    }
}

/// Trimming keeps one contiguous piece of the text: everything before and
/// after it is white space, and the piece neither starts nor ends with white
/// space.
pub proof fn lemma_trimmed_shape(s: Seq<char>)
    ensures
        exists|a: int, b: int|
            {
                &&& 0 <= a <= b <= s.len()
                &&& trimmed(s) == s.subrange(a, b)
                &&& forall|i: int| 0 <= i < a ==> is_white_space(#[trigger] s[i])
                &&& forall|i: int| b <= i < s.len() ==> is_white_space(#[trigger] s[i])
                &&& a < b ==> !is_white_space(s[a]) && !is_white_space(s[b - 1])
            },
{
    let a = lemma_trim_start_shape(s);
    let t = s.subrange(a, s.len() as int);
    let b0 = lemma_trim_end_shape(t);
    let b = a + b0;
    assert(t.subrange(0, b0) =~= s.subrange(a, b));
    assert forall|i: int| b <= i < s.len() implies is_white_space(#[trigger] s[i]) by {
        assert(s[i] == t[i - a]);
    }
    if a < b {
        assert(s[a] == t[0]);
        assert(s[b - 1] == t[b0 - 1]);
    }
    assert(0 <= a <= b <= s.len() && trimmed(s) == s.subrange(a, b));
}

/// Character order decides at the first place two texts differ, and a proper
/// prefix comes before the text it starts.
pub proof fn lemma_text_lt_meaning(a: Seq<char>, b: Seq<char>, k: int)
    requires
        0 <= k <= a.len(),
        k <= b.len(),
        forall|i: int| 0 <= i < k ==> a[i] == b[i],
    ensures
        k == a.len() && k < b.len() ==> text_lt(a, b),
        k < a.len() && k < b.len() && a[k] < b[k] ==> text_lt(a, b),
        k < a.len() && k < b.len() && b[k] < a[k] ==> !text_lt(a, b),
    decreases k,
{
    if k > 0 {
        assert forall|i: int| 0 <= i < k - 1 implies a.drop_first()[i] == b.drop_first()[i] by {
            assert(a.drop_first()[i] == a[i + 1]);
            assert(b.drop_first()[i] == b[i + 1]);
        }
        lemma_text_lt_meaning(a.drop_first(), b.drop_first(), k - 1);
    }
}

/// Whether `c` is white space as `char::is_whitespace` has it.
pub fn is_white_space_char(c: char) -> (b: bool)
    ensures
        b == is_white_space(c),
{
    let u = c as u32;
    (0x09 <= u && u <= 0x0D) || u == 0x20 || u == 0x85 || u == 0xA0 || u == 0x1680 || (0x2000
        <= u && u <= 0x200A) || u == 0x2028 || u == 0x2029 || u == 0x202F || u == 0x205F || u
        == 0x3000
}

/// `s` with leading and trailing white space removed, as `str::trim` does.
pub fn trim(s: &str) -> (r: &str)
    ensures
        r@ == trimmed(s@),
{
    let n = s.unicode_len();
    let mut a: usize = 0;
    assert(s@.subrange(0, n as int) =~= s@);
    loop
        invariant
            n == s@.len(),
            a <= n,
            trim_start(s@) == trim_start(s@.subrange(a as int, n as int)),
        ensures
            a <= n,
            trim_start(s@) == s@.subrange(a as int, n as int),
        decreases n - a,
    {
        if a == n {
            break;
        }
        let c = s.get_char(a);
        let rest = Ghost(s@.subrange(a as int, n as int));
        if !is_white_space_char(c) {
            assert(rest@[0] == c);
            break;
        }
        assert(rest@.drop_first() =~= s@.subrange(a + 1, n as int));
        a = a + 1;
    }
    let mut b: usize = n;
    loop
        invariant
            n == s@.len(),
            a <= b <= n,
            trimmed(s@) == trim_end(s@.subrange(a as int, b as int)),
        ensures
            a <= b <= n,
            trimmed(s@) == s@.subrange(a as int, b as int),
        decreases b - a,
    {
        if b == a {
            break;
        }
        let c = s.get_char(b - 1);
        let part = Ghost(s@.subrange(a as int, b as int));
        if !is_white_space_char(c) {
            assert(part@.last() == c);
            break;
        }
        assert(part@.drop_last() =~= s@.subrange(a as int, b - 1));
        b = b - 1;
    }
    s.substring_char(a, b)
}

/// The position of the first `c` in `s` at or after `from`, or the length of
/// `s` if there is none.
pub fn position_of(s: &str, from: usize, c: char) -> (k: usize)
    requires
        from <= s@.len(),
    ensures
        k == from + span_until(s@.subrange(from as int, s@.len() as int), c),
        from <= k <= s@.len(),
{
    let n = s.unicode_len();
    let mut k = from;
    proof {
        lemma_span_until_bounds(s@.subrange(from as int, n as int), c);
    }
    while k < n
        invariant
            n == s@.len(),
            from <= k <= n,
            from + span_until(s@.subrange(from as int, n as int), c) == k + span_until(
                s@.subrange(k as int, n as int),
                c,
            ),
        decreases n - k,
    {
        let rest = Ghost(s@.subrange(k as int, n as int));
        if s.get_char(k) == c {
            assert(rest@[0] == c);
            return k;
        }
        assert(rest@.drop_first() =~= s@.subrange(k + 1, n as int));
        k = k + 1;
    }
    assert(s@.subrange(k as int, n as int).len() == 0);
    k
}

/// Whether `a` and `b` hold the same characters.
pub fn same_text(a: &str, b: &str) -> (r: bool)
    ensures
        r == (a@ == b@),
{
    let n = a.unicode_len();
    if n != b.unicode_len() {
        return false;
    }
    let mut i: usize = 0;
    while i < n
        invariant
            n == a@.len(),
            n == b@.len(),
            i <= n,
            forall|j: int| 0 <= j < i ==> a@[j] == b@[j],
        decreases n - i,
    {
        if a.get_char(i) != b.get_char(i) {
            return false;
        }
        i = i + 1;
    }
    assert(a@ =~= b@);
    true
}

/// Whether `c` can belong to a number.
pub fn is_number_char_exec(c: char) -> (b: bool)
    ensures
        b == is_number_char(c),
{
    ('0' <= c && c <= '9') || c == '.' || c == '-'
}

/// The number at the start of `field`: trimmed, then as many leading digits,
/// points and minus signs as there are. Accepts both `37` and `37 %`.
pub fn number_prefix_of(field: &str) -> (r: &str)
    ensures
        r@ == number_prefix(field@),
{
    let t = trim(field);
    let m = t.unicode_len();
    let mut k: usize = 0;
    assert(t@.subrange(0, m as int) =~= t@);
    loop
        invariant
            m == t@.len(),
            k <= m,
            number_span(t@) == k + number_span(t@.subrange(k as int, m as int)),
        ensures
            k <= m,
            number_span(t@) == k,
        decreases m - k,
    {
        let rest = Ghost(t@.subrange(k as int, m as int));
        if k == m {
            assert(rest@.len() == 0);
            break;
        }
        if !is_number_char_exec(t.get_char(k)) {
            assert(rest@[0] == t@[k as int]);
            break;
        }
        assert(rest@.drop_first() =~= t@.subrange(k + 1, m as int));
        k = k + 1;
    }
    assert(number_span(t@) == k);
    t.substring_char(0, k)
}

/// Whether `a` comes strictly before `b` in character (code point) order,
/// which for UTF-8 names is the order a sorted directory listing has.
pub open spec fn text_lt(a: Seq<char>, b: Seq<char>) -> bool
    decreases a.len(),
{
    if a.len() == 0 {
        b.len() > 0
    } else if b.len() == 0 {
        false
    } else if a[0] != b[0] {
        a[0] < b[0]
    } else {
        text_lt(a.drop_first(), b.drop_first())
    }
}

/// Character order is irreflexive.
pub proof fn lemma_text_lt_irreflexive(a: Seq<char>)
    ensures
        !text_lt(a, a),
    decreases a.len(),
{
    if a.len() > 0 {
        lemma_text_lt_irreflexive(a.drop_first());
    }
}

/// Character order is total: of two different texts, one comes first.
pub proof fn lemma_text_lt_total(a: Seq<char>, b: Seq<char>)
    requires
        a != b,
    ensures
        text_lt(a, b) || text_lt(b, a),
    decreases a.len(),
{
    if a.len() > 0 && b.len() > 0 {
        if a[0] == b[0] {
            if a.drop_first() =~= b.drop_first() {
                assert forall|i: int| 0 <= i < a.len() implies a[i] == b[i] by {
                    if i > 0 {
                        assert(a[i] == a.drop_first()[i - 1]);
                        assert(b[i] == b.drop_first()[i - 1]);
                    }
                }
                assert(a =~= b);
            }
            lemma_text_lt_total(a.drop_first(), b.drop_first());
        } else {
            assert(a[0] < b[0] || b[0] < a[0]);
        }
    } else if a.len() == 0 && b.len() == 0 {
        assert(a =~= b);
    }
}

/// Character order is transitive.
pub proof fn lemma_text_lt_transitive(a: Seq<char>, b: Seq<char>, c: Seq<char>)
    requires
        text_lt(a, b),
        text_lt(b, c),
    ensures
        text_lt(a, c),
    decreases a.len(),
{
    if a.len() > 0 && a[0] == b[0] && b[0] == c[0] {
        lemma_text_lt_transitive(a.drop_first(), b.drop_first(), c.drop_first());
    }
}

/// Whether `a` comes strictly before `b` in character order.
pub fn text_before(a: &str, b: &str) -> (r: bool)
    ensures
        r == text_lt(a@, b@),
{
    let n = a.unicode_len();
    let m = b.unicode_len();
    let mut i: usize = 0;
    assert(a@.subrange(0, n as int) =~= a@);
    assert(b@.subrange(0, m as int) =~= b@);
    loop
        invariant
            n == a@.len(),
            m == b@.len(),
            i <= n,
            i <= m,
            text_lt(a@, b@) == text_lt(a@.subrange(i as int, n as int), b@.subrange(i as int, m as int)),
        decreases n - i,
    {
        let ra = Ghost(a@.subrange(i as int, n as int));
        let rb = Ghost(b@.subrange(i as int, m as int));
        if i == n {
            assert(ra@.len() == 0);
            return i < m;
        }
        if i == m {
            assert(rb@.len() == 0);
            return false;
        }
        let x = a.get_char(i);
        let y = b.get_char(i);
        assert(ra@[0] == x && rb@[0] == y);
        if x != y {
            return x < y;
        }
        assert(ra@.drop_first() =~= a@.subrange(i + 1, n as int));
        assert(rb@.drop_first() =~= b@.subrange(i + 1, m as int));
        i = i + 1;
    }
}

} // verus!
