//! Verified text utilities: decimal parsing and formatting, substring
//! search, splitting, and trimming, as needed by the metric sources.

use vstd::prelude::*;

verus! {

/// An ASCII decimal digit.
pub open spec fn is_digit(c: char) -> bool {
    '0' as u32 <= c as u32 && c as u32 <= '9' as u32
}

/// Numeric value of an ASCII decimal digit.
pub open spec fn digit_val(c: char) -> nat {
    (c as u32 - '0' as u32) as nat
}

pub open spec fn all_digits(s: Seq<char>) -> bool {
    forall|i: int| 0 <= i < s.len() ==> is_digit(#[trigger] s[i])
}

/// Value of a digit string read most significant first.
pub open spec fn dec_val(s: Seq<char>) -> nat
    decreases s.len(),
{
    if s.len() == 0 {
        0
    } else {
        dec_val(s.drop_last()) * 10 + digit_val(s.last())
    }
}

/// The digit character for a value below ten.
pub open spec fn digit_char(d: nat) -> char {
    if d == 0 { '0' }
    else if d == 1 { '1' }
    else if d == 2 { '2' }
    else if d == 3 { '3' }
    else if d == 4 { '4' }
    else if d == 5 { '5' }
    else if d == 6 { '6' }
    else if d == 7 { '7' }
    else if d == 8 { '8' }
    else { '9' }
}

/// Shortest decimal rendering of a natural number.
pub open spec fn dec_str(n: nat) -> Seq<char>
    decreases n,
{
    if n < 10 {
        seq![digit_char(n)]
    } else {
        dec_str(n / 10) + seq![digit_char(n % 10)]
    }
}

/// Two-digit rendering: values below ten get a leading zero.
pub open spec fn pad2_str(n: nat) -> Seq<char> {
    if n < 10 {
        seq!['0'] + dec_str(n)
    } else {
        dec_str(n)
    }
}

fn digit_str(d: u64) -> (r: &'static str)
    requires
        d < 10,
    ensures
        r@ == seq![digit_char(d as nat)],
        r@.len() == 1,
{
    proof {
        reveal_strlit("0");
        reveal_strlit("1");
        reveal_strlit("2");
        reveal_strlit("3");
        reveal_strlit("4");
        reveal_strlit("5");
        reveal_strlit("6");
        reveal_strlit("7");
        reveal_strlit("8");
        reveal_strlit("9");
    }
    if d == 0 { proof { assert("0"@ =~= seq![digit_char(d as nat)]); } "0" }
    else if d == 1 { proof { assert("1"@ =~= seq![digit_char(d as nat)]); } "1" }
    else if d == 2 { proof { assert("2"@ =~= seq![digit_char(d as nat)]); } "2" }
    else if d == 3 { proof { assert("3"@ =~= seq![digit_char(d as nat)]); } "3" }
    else if d == 4 { proof { assert("4"@ =~= seq![digit_char(d as nat)]); } "4" }
    else if d == 5 { proof { assert("5"@ =~= seq![digit_char(d as nat)]); } "5" }
    else if d == 6 { proof { assert("6"@ =~= seq![digit_char(d as nat)]); } "6" }
    else if d == 7 { proof { assert("7"@ =~= seq![digit_char(d as nat)]); } "7" }
    else if d == 8 { proof { assert("8"@ =~= seq![digit_char(d as nat)]); } "8" }
    else { proof { assert("9"@ =~= seq![digit_char(d as nat)]); } "9" }
}

/// Renders a number in decimal, matching [`dec_str`].
pub fn u64_to_string(n: u64) -> (r: String)
    ensures
        r@ == dec_str(n as nat),
    decreases n,
{
    if n < 10 {
        digit_str(n).to_owned()
    } else {
        let mut s = u64_to_string(n / 10);
        s.append(digit_str(n % 10));
        proof {
            assert(n as nat / 10 == (n / 10) as nat);
            assert(n as nat % 10 == (n % 10) as nat);
        }
        s
    }
}

/// Renders a number below one hundred as exactly two digits.
pub fn u64_to_pad2(n: u64) -> (r: String)
    requires
        n < 100,
    ensures
        r@ == pad2_str(n as nat),
{
    if n < 10 {
        let mut z = "0".to_owned();
        z.append(digit_str(n));
        proof {
            assert(z@ =~= pad2_str(n as nat)) by {
                reveal_strlit("0");
            }
        }
        z
    } else {
        u64_to_string(n)
    }
}

proof fn lemma_dec_val_prefix_le(s: Seq<char>, j: int)
    requires
        0 <= j <= s.len(),
    ensures
        dec_val(s.take(j)) <= dec_val(s),
    decreases s.len() - j,
{
    if j == s.len() {
        assert(s.take(j) =~= s);
    } else {
        assert(s.take(j + 1).drop_last() =~= s.take(j));
        assert(dec_val(s.take(j + 1)) == dec_val(s.take(j)) * 10 + digit_val(s.take(j + 1).last()));
        lemma_dec_val_prefix_le(s, j + 1);
    }
}

/// Parses an unsigned decimal number. Returns the value exactly when the
/// string is nonempty, all digits, and the value fits in a `u64`.
pub fn parse_u64(s: &str) -> (r: Option<u64>)
    ensures
        match r {
            Some(v) => s@.len() > 0 && all_digits(s@) && v as nat == dec_val(s@),
            None => s@.len() == 0 || !all_digits(s@) || dec_val(s@) > u64::MAX,
        },
{
    let n = s.unicode_len();
    if n == 0 {
        return None;
    }
    let mut acc: u64 = 0;
    let mut i: usize = 0;
    while i < n
        invariant
            0 <= i <= n,
            n == s@.len(),
            forall|k: int| 0 <= k < i ==> is_digit(#[trigger] s@[k]),
            acc as nat == dec_val(s@.take(i as int)),
        decreases n - i,
    {
        let c = s.get_char(i);
        let u = c as u32;
        if u < 48 || u > 57 {
            proof {
                assert('0' as u32 == 48 && '9' as u32 == 57);
                assert(!is_digit(s@[i as int]));
            }
            return None;
        }
        let d = (u - 48) as u64;
        proof {
            assert(is_digit(s@[i as int]));
            assert(d as nat == digit_val(s@[i as int]));
            assert(s@.take(i + 1).drop_last() =~= s@.take(i as int));
            assert(s@.take(i + 1).last() == s@[i as int]);
        }
        let widened = match acc.checked_mul(10) {
            Some(w) => w.checked_add(d),
            None => None,
        };
        match widened {
            Some(w) => {
                acc = w;
            },
            None => {
                proof {
                    assert(dec_val(s@.take(i + 1)) > u64::MAX);
                    lemma_dec_val_prefix_le(s@, i + 1);
                }
                return None;
            },
        }
        i = i + 1;
    }
    proof {
        assert(s@.take(n as int) =~= s@);
    }
    Some(acc)
}

/// Character-for-character string equality.
pub fn str_eq(a: &str, b: &str) -> (r: bool)
    ensures
        r == (a@ == b@),
{
    let na = a.unicode_len();
    let nb = b.unicode_len();
    if na != nb {
        return false;
    }
    let mut i: usize = 0;
    while i < na
        invariant
            0 <= i <= na,
            na == a@.len(),
            na == b@.len(),
            forall|k: int| 0 <= k < i ==> a@[k] == b@[k],
        decreases na - i,
    {
        if a.get_char(i) != b.get_char(i) {
            return false;
        }
        i = i + 1;
    }
    proof {
        assert(a@ =~= b@);
    }
    true
}

/// `p` is a prefix of `s`.
pub open spec fn has_prefix(s: Seq<char>, p: Seq<char>) -> bool {
    p.len() <= s.len() && s.take(p.len() as int) == p
}

pub fn str_has_prefix(s: &str, p: &str) -> (r: bool)
    ensures
        r == has_prefix(s@, p@),
{
    let ns = s.unicode_len();
    let np = p.unicode_len();
    if np > ns {
        return false;
    }
    let mut i: usize = 0;
    while i < np
        invariant
            0 <= i <= np,
            np <= ns,
            ns == s@.len(),
            np == p@.len(),
            forall|k: int| 0 <= k < i ==> s@[k] == p@[k],
        decreases np - i,
    {
        if s.get_char(i) != p.get_char(i) {
            proof {
                assert(s@.take(np as int)[i as int] != p@[i as int]);
            }
            return false;
        }
        i = i + 1;
    }
    proof {
        assert(s@.take(np as int) =~= p@);
    }
    true
}

/// `p` occurs in `s` starting at position `i`.
pub open spec fn match_at(s: Seq<char>, p: Seq<char>, i: int) -> bool {
    s.subrange(i, i + p.len()) == p
}

/// `p` occurs somewhere in `s`.
pub open spec fn has_sub(s: Seq<char>, p: Seq<char>) -> bool {
    exists|i: int| 0 <= i && i + p.len() <= s.len() && match_at(s, p, i)
}

fn match_at_exec(s: &str, p: &str, i: usize, ns: usize, np: usize) -> (r: bool)
    requires
        ns == s@.len(),
        np == p@.len(),
        i + np <= ns,
    ensures
        r == match_at(s@, p@, i as int),
{
    let mut j: usize = 0;
    while j < np
        invariant
            0 <= j <= np,
            ns == s@.len(),
            np == p@.len(),
            i + np <= ns,
            forall|k: int| 0 <= k < j ==> s@[i + k] == p@[k],
        decreases np - j,
    {
        if s.get_char(i + j) != p.get_char(j) {
            proof {
                assert(s@.subrange(i as int, i + np)[j as int] != p@[j as int]);
            }
            return false;
        }
        j = j + 1;
    }
    proof {
        assert(s@.subrange(i as int, i + np) =~= p@);
    }
    true
}

/// Substring search: whether `p` occurs anywhere in `s`.
pub fn contains_str(s: &str, p: &str) -> (r: bool)
    ensures
        r == has_sub(s@, p@),
{
    let ns = s.unicode_len();
    let np = p.unicode_len();
    if np > ns {
        return false;
    }
    if np == 0 {
        proof {
            assert(s@.subrange(0, 0) =~= p@);
            assert(match_at(s@, p@, 0));
        }
        return true;
    }
    let count = ns - np + 1;
    let mut i: usize = 0;
    while i < count
        invariant
            0 <= i <= count,
            count == ns - np + 1,
            0 < np <= ns,
            ns == s@.len(),
            np == p@.len(),
            forall|k: int| 0 <= k < i ==> !match_at(s@, p@, k),
        decreases count - i,
    {
        if match_at_exec(s, p, i, ns, np) {
            return true;
        }
        i = i + 1;
    }
    false
}

/// Position of the first occurrence of `c` in `s`, or `s.len()` when absent.
pub open spec fn find_char(s: Seq<char>, c: char) -> nat
    decreases s.len(),
{
    if s.len() == 0 {
        0
    } else if s[0] == c {
        0
    } else {
        1 + find_char(s.drop_first(), c)
    }
}

proof fn lemma_find_char_is(s: Seq<char>, c: char, k: int)
    requires
        0 <= k <= s.len(),
        forall|j: int| 0 <= j < k ==> s[j] != c,
        k < s.len() ==> s[k] == c,
    ensures
        find_char(s, c) == k,
    decreases k,
{
    if k == 0 {
    } else {
        assert(s[0] != c);
        let t = s.drop_first();
        assert(t.len() == s.len() - 1);
        assert forall|j: int| 0 <= j < k - 1 implies t[j] != c by {
            assert(t[j] == s[j + 1]);
        }
        lemma_find_char_is(t, c, k - 1);
    }
}

/// The segments of `s` between occurrences of `c`: one more segment than
/// there are separators, and possibly empty segments.
pub open spec fn split_char(s: Seq<char>, c: char) -> Seq<Seq<char>>
    decreases s.len(),
{
    let i = find_char(s, c);
    if i >= s.len() {
        seq![s]
    } else {
        seq![s.take(i as int)] + split_char(s.skip(i as int + 1), c)
    }
}

/// Splits at every occurrence of `c`, keeping empty segments.
pub fn split_str(s: &str, c: char) -> (r: Vec<String>)
    ensures
        r.deep_view() == split_char(s@, c),
{
    let n = s.unicode_len();
    let mut r: Vec<String> = Vec::new();
    proof {
        assert(s@.skip(0) =~= s@);
        assert(r.deep_view() =~= Seq::<Seq<char>>::empty());
        assert(Seq::<Seq<char>>::empty() + split_char(s@, c) =~= split_char(s@, c));
    }
    let mut start: usize = 0;
    let mut i: usize = 0;
    while i < n
        invariant
            0 <= start <= i <= n,
            n == s@.len(),
            r.deep_view() + split_char(s@.skip(start as int), c) =~= split_char(s@, c),
            forall|k: int| start <= k < i ==> s@[k] != c,
        decreases n - i,
    {
        if s.get_char(i) == c {
            let seg = s.substring_char(start, i).to_owned();
            proof {
                let t = s@.skip(start as int);
                assert forall|j: int| 0 <= j < i - start implies t[j] != c by {
                    assert(t[j] == s@[start + j]);
                }
                assert(t[i - start] == s@[i as int]);
                lemma_find_char_is(t, c, i - start);
                assert(t.take(i - start) =~= s@.subrange(start as int, i as int));
                assert(t.skip(i - start + 1) =~= s@.skip(i + 1));
                assert(split_char(t, c) =~= seq![s@.subrange(start as int, i as int)]
                    + split_char(s@.skip(i + 1), c));
            }
            let ghost old_r = r.deep_view();
            r.push(seg);
            proof {
                assert(r.deep_view() =~= old_r.push(s@.subrange(start as int, i as int)));
                assert(r.deep_view() + split_char(s@.skip(i + 1), c) =~= split_char(s@, c));
            }
            start = i + 1;
        }
        i = i + 1;
    }
    let seg = s.substring_char(start, n).to_owned();
    proof {
        let t = s@.skip(start as int);
        assert forall|j: int| 0 <= j < n - start implies t[j] != c by {
            assert(t[j] == s@[start + j]);
        }
        lemma_find_char_is(t, c, n - start);
        assert(split_char(t, c) =~= seq![t]);
        assert(t =~= s@.subrange(start as int, n as int));
    }
    let ghost old_r = r.deep_view();
    r.push(seg);
    proof {
        assert(r.deep_view() =~= old_r.push(s@.subrange(start as int, n as int)));
        assert(r.deep_view() =~= split_char(s@, c));
    }
    r
}

/// Whitespace as the sources' trimming and field-splitting see it: the
/// Unicode `White_Space` set.
pub open spec fn is_space(c: char) -> bool {
    (0x09 <= c as u32 && c as u32 <= 0x0d) || c as u32 == 0x20 || c as u32 == 0x85
        || c as u32 == 0xa0 || c as u32 == 0x1680 || (0x2000 <= c as u32 && c as u32 <= 0x200a)
        || c as u32 == 0x2028 || c as u32 == 0x2029 || c as u32 == 0x202f || c as u32 == 0x205f
        || c as u32 == 0x3000
}

/// `s` with leading and trailing whitespace removed.
pub open spec fn trim_spec(s: Seq<char>) -> Seq<char>
    decreases s.len(),
{
    if s.len() == 0 {
        s
    } else if is_space(s[0]) {
        trim_spec(s.drop_first())
    } else if is_space(s.last()) {
        trim_spec(s.drop_last())
    } else {
        s
    }
}

proof fn lemma_trim_all_space(s: Seq<char>)
    requires
        forall|i: int| 0 <= i < s.len() ==> is_space(#[trigger] s[i]),
    ensures
        trim_spec(s) =~= Seq::<char>::empty(),
    decreases s.len(),
{
    if s.len() > 0 {
        let t = s.drop_first();
        assert forall|i: int| 0 <= i < t.len() implies is_space(#[trigger] t[i]) by {
            assert(t[i] == s[i + 1]);
        }
        lemma_trim_all_space(t);
    }
}

proof fn lemma_trim_subrange(s: Seq<char>, a: int, b: int)
    requires
        0 <= a < b <= s.len(),
        forall|i: int| 0 <= i < a ==> is_space(#[trigger] s[i]),
        forall|i: int| b <= i < s.len() ==> is_space(#[trigger] s[i]),
        !is_space(s[a]),
        !is_space(s[b - 1]),
    ensures
        trim_spec(s) =~= s.subrange(a, b),
    decreases s.len(),
{
    if a > 0 {
        let t = s.drop_first();
        assert forall|i: int| 0 <= i < a - 1 implies is_space(#[trigger] t[i]) by {
            assert(t[i] == s[i + 1]);
        }
        assert forall|i: int| b - 1 <= i < t.len() implies is_space(#[trigger] t[i]) by {
            assert(t[i] == s[i + 1]);
        }
        assert(t[a - 1] == s[a]);
        assert(t[b - 2] == s[b - 1]);
        lemma_trim_subrange(t, a - 1, b - 1);
        assert(t.subrange(a - 1, b - 1) =~= s.subrange(a, b));
    } else if b < s.len() {
        assert(is_space(s.last()));
        let t = s.drop_last();
        assert forall|i: int| b <= i < t.len() implies is_space(#[trigger] t[i]) by {
            assert(t[i] == s[i]);
        }
        lemma_trim_subrange(t, a, b);
        assert(t.subrange(a, b) =~= s.subrange(a, b));
    } else {
        assert(!is_space(s[0]));
        assert(!is_space(s.last()));
        assert(s.subrange(0, s.len() as int) =~= s);
    }
}

/// Removes leading and trailing whitespace.
pub fn trim_str(s: &str) -> (r: String)
    ensures
        r@ == trim_spec(s@),
{
    let n = s.unicode_len();
    let mut a: usize = 0;
    while a < n && is_space_exec(s.get_char(a))
        invariant
            0 <= a <= n,
            n == s@.len(),
            forall|i: int| 0 <= i < a ==> is_space(#[trigger] s@[i]),
        decreases n - a,
    {
        a = a + 1;
    }
    if a == n {
        proof {
            lemma_trim_all_space(s@);
        }
        return String::new();
    }
    let mut b: usize = n;
    while b > a && is_space_exec(s.get_char(b - 1))
        invariant
            a <= b <= n,
            a < n,
            n == s@.len(),
            forall|i: int| b <= i < n ==> is_space(#[trigger] s@[i]),
        decreases b,
    {
        b = b - 1;
    }
    proof {
        assert(!is_space(s@[a as int]));
        assert(b > a) by {
            if b == a {
                assert(is_space(s@[a as int]));
            }
        }
        assert(!is_space(s@[b - 1]));
        lemma_trim_subrange(s@, a as int, b as int);
    }
    s.substring_char(a, b).to_owned()
}

fn is_space_exec(c: char) -> (r: bool)
    ensures
        r == is_space(c),
{
    let u = c as u32;
    (0x09 <= u && u <= 0x0d) || u == 0x20 || u == 0x85 || u == 0xa0 || u == 0x1680
        || (0x2000 <= u && u <= 0x200a) || u == 0x2028 || u == 0x2029 || u == 0x202f
        || u == 0x205f || u == 0x3000
}

/// Position of the first whitespace character in `s`, or `s.len()` when
/// there is none.
pub open spec fn find_space(s: Seq<char>) -> nat
    decreases s.len(),
{
    if s.len() == 0 {
        0
    } else if is_space(s[0]) {
        0
    } else {
        1 + find_space(s.drop_first())
    }
}

proof fn lemma_find_space_is(s: Seq<char>, k: int)
    requires
        0 <= k <= s.len(),
        forall|j: int| 0 <= j < k ==> !is_space(#[trigger] s[j]),
        k < s.len() ==> is_space(s[k]),
    ensures
        find_space(s) == k,
    decreases k,
{
    if k == 0 {
    } else {
        assert(!is_space(s[0]));
        let t = s.drop_first();
        assert(t.len() == s.len() - 1);
        assert forall|j: int| 0 <= j < k - 1 implies !is_space(#[trigger] t[j]) by {
            assert(t[j] == s[j + 1]);
        }
        lemma_find_space_is(t, k - 1);
    }
}

/// The segments of `s` between whitespace characters: one more segment than
/// there are separators, and possibly empty segments.
pub open spec fn split_spaces(s: Seq<char>) -> Seq<Seq<char>>
    decreases s.len(),
{
    let i = find_space(s);
    if i >= s.len() {
        seq![s]
    } else {
        seq![s.take(i as int)] + split_spaces(s.skip(i as int + 1))
    }
}

/// Splits at every whitespace character, keeping empty segments.
pub fn split_spaces_str(s: &str) -> (r: Vec<String>)
    ensures
        r.deep_view() == split_spaces(s@),
{
    let n = s.unicode_len();
    let mut r: Vec<String> = Vec::new();
    proof {
        assert(s@.skip(0) =~= s@);
        assert(r.deep_view() =~= Seq::<Seq<char>>::empty());
        assert(Seq::<Seq<char>>::empty() + split_spaces(s@) =~= split_spaces(s@));
    }
    let mut start: usize = 0;
    let mut i: usize = 0;
    while i < n
        invariant
            0 <= start <= i <= n,
            n == s@.len(),
            r.deep_view() + split_spaces(s@.skip(start as int)) =~= split_spaces(s@),
            forall|k: int| start <= k < i ==> !is_space(#[trigger] s@[k]),
        decreases n - i,
    {
        if is_space_exec(s.get_char(i)) {
            let seg = s.substring_char(start, i).to_owned();
            proof {
                let t = s@.skip(start as int);
                assert forall|j: int| 0 <= j < i - start implies !is_space(#[trigger] t[j]) by {
                    assert(t[j] == s@[start + j]);
                }
                assert(t[i - start] == s@[i as int]);
                lemma_find_space_is(t, i - start);
                assert(t.take(i - start) =~= s@.subrange(start as int, i as int));
                assert(t.skip(i - start + 1) =~= s@.skip(i + 1));
                assert(split_spaces(t) =~= seq![s@.subrange(start as int, i as int)]
                    + split_spaces(s@.skip(i + 1)));
            }
            let ghost old_r = r.deep_view();
            r.push(seg);
            proof {
                assert(r.deep_view() =~= old_r.push(s@.subrange(start as int, i as int)));
                assert(r.deep_view() + split_spaces(s@.skip(i + 1)) =~= split_spaces(s@));
            }
            start = i + 1;
        }
        i = i + 1;
    }
    let seg = s.substring_char(start, n).to_owned();
    proof {
        let t = s@.skip(start as int);
        assert forall|j: int| 0 <= j < n - start implies !is_space(#[trigger] t[j]) by {
            assert(t[j] == s@[start + j]);
        }
        lemma_find_space_is(t, n - start);
        assert(split_spaces(t) =~= seq![t]);
        assert(t =~= s@.subrange(start as int, n as int));
    }
    let ghost old_r = r.deep_view();
    r.push(seg);
    proof {
        assert(r.deep_view() =~= old_r.push(s@.subrange(start as int, n as int)));
        assert(r.deep_view() =~= split_spaces(s@));
    }
    r
}

/// The decimal digits of `s`, in order, everything else removed.
pub open spec fn digits_of(s: Seq<char>) -> Seq<char>
    decreases s.len(),
{
    if s.len() == 0 {
        Seq::empty()
    } else if is_digit(s.last()) {
        digits_of(s.drop_last()) + seq![s.last()]
    } else {
        digits_of(s.drop_last())
    }
}

/// Keeps only the decimal digits of `s`.
pub fn collect_digits(s: &str) -> (r: String)
    ensures
        r@ == digits_of(s@),
{
    let n = s.unicode_len();
    let mut r = String::new();
    let mut i: usize = 0;
    while i < n
        invariant
            0 <= i <= n,
            n == s@.len(),
            r@ =~= digits_of(s@.take(i as int)),
        decreases n - i,
    {
        let c = s.get_char(i);
        let u = c as u32;
        if 48 <= u && u <= 57 {
            let d = (u - 48) as u64;
            proof {
                assert(is_digit(s@[i as int]));
                assert(digit_char(d as nat) == s@[i as int]) by {
                    assert(c as u32 - 48 == d);
                }
            }
            r.append(digit_str(d));
        } else {
            proof {
                assert(!is_digit(s@[i as int]));
            }
        }
        proof {
            assert(s@.take(i + 1).drop_last() =~= s@.take(i as int));
            assert(s@.take(i + 1).last() == s@[i as int]);
        }
        i = i + 1;
    }
    proof {
        assert(s@.take(n as int) =~= s@);
    }
    r
}

/// The elements of `parts` joined with `sep` between neighbours.
pub open spec fn join_spec(parts: Seq<Seq<char>>, sep: Seq<char>) -> Seq<char>
    decreases parts.len(),
{
    if parts.len() == 0 {
        Seq::empty()
    } else if parts.len() == 1 {
        parts[0]
    } else {
        join_spec(parts.drop_last(), sep) + sep + parts.last()
    }
}

/// Joins strings with a separator.
pub fn join_strs(parts: &Vec<String>, sep: &str) -> (r: String)
    ensures
        r@ == join_spec(parts.deep_view(), sep@),
{
    let mut r = String::new();
    let mut i: usize = 0;
    while i < parts.len()
        invariant
            0 <= i <= parts.deep_view().len(),
            parts.deep_view().len() == parts@.len(),
            forall|k: int| 0 <= k < parts@.len() ==> parts.deep_view()[k] == parts@[k]@,
            r@ =~= join_spec(parts.deep_view().take(i as int), sep@),
        decreases parts@.len() - i,
    {
        if i > 0 {
            r.append(sep);
        }
        r.append(parts[i].as_str());
        proof {
            let dv = parts.deep_view();
            assert(dv.take(i + 1).drop_last() =~= dv.take(i as int));
            assert(dv.take(i + 1).last() == dv[i as int]);
            if i == 0 {
                assert(join_spec(dv.take(1), sep@) == dv[0]);
            }
        }
        i = i + 1;
    }
    proof {
        assert(parts.deep_view().take(parts@.len() as int) =~= parts.deep_view());
    }
    r
}

} // verus!
