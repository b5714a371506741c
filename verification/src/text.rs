//! Character-level helpers on strings, shared by the parsers and formatters.
use vstd::prelude::*;
use vstd::string::*;
use crate::bindings::push_char;

verus! {

/// `s` is `a`, then `c`, then `b`, and `c` does not occur in `a`: `s` split
/// at the first occurrence of `c`.
pub open spec fn splits_at_first(s: Seq<char>, c: char, a: Seq<char>, b: Seq<char>) -> bool {
    s =~= a + seq![c] + b && !a.contains(c)
}

/// `s` is `a`, then `c`, then `b`, and `c` does not occur in `b`: `s` split
/// at the last occurrence of `c`.
pub open spec fn splits_at_last(s: Seq<char>, c: char, a: Seq<char>, b: Seq<char>) -> bool {
    s =~= a + seq![c] + b && !b.contains(c)
}

/// `s` split at the first occurrence of `c`; `None` when `c` does not occur.
pub open spec fn split_once_spec(s: Seq<char>, c: char) -> Option<(Seq<char>, Seq<char>)> {
    if s.contains(c) {
        Some(choose|ab: (Seq<char>, Seq<char>)| splits_at_first(s, c, ab.0, ab.1))
    } else {
        None
    }
}

/// The last piece of `s` split at `c`: what follows the last `c`, or all of
/// `s` when `c` does not occur.
pub open spec fn last_piece_spec(s: Seq<char>, c: char) -> Seq<char> {
    if s.contains(c) {
        (choose|ab: (Seq<char>, Seq<char>)| splits_at_last(s, c, ab.0, ab.1)).1
    } else {
        s
    }
}

/// `s` split at the last occurrence of `c`; `None` when `c` does not occur.
pub open spec fn split_last_spec(s: Seq<char>, c: char) -> Option<(Seq<char>, Seq<char>)> {
    if s.contains(c) {
        Some(choose|ab: (Seq<char>, Seq<char>)| splits_at_last(s, c, ab.0, ab.1))
    } else {
        None
    }
}

/// Splitting at the first occurrence of a character has one answer.
pub proof fn lemma_split_first_unique(
    s: Seq<char>,
    c: char,
    a1: Seq<char>,
    b1: Seq<char>,
    a2: Seq<char>,
    b2: Seq<char>,
)
    requires
        splits_at_first(s, c, a1, b1),
        splits_at_first(s, c, a2, b2),
    ensures
        a1 == a2,
        b1 == b2,
{
    if a1.len() < a2.len() {
        assert(s[a1.len() as int] == c);
        assert(a2[a1.len() as int] == s[a1.len() as int]);
        assert(a2.contains(c));
    } else if a2.len() < a1.len() {
        assert(s[a2.len() as int] == c);
        assert(a1[a2.len() as int] == s[a2.len() as int]);
        assert(a1.contains(c));
    }
    assert(a1 =~= s.subrange(0, a1.len() as int));
    assert(a2 =~= s.subrange(0, a2.len() as int));
    assert(b1 =~= s.subrange(a1.len() as int + 1, s.len() as int));
    assert(b2 =~= s.subrange(a2.len() as int + 1, s.len() as int));
}

/// Splitting at the last occurrence of a character has one answer.
pub proof fn lemma_split_last_unique(
    s: Seq<char>,
    c: char,
    a1: Seq<char>,
    b1: Seq<char>,
    a2: Seq<char>,
    b2: Seq<char>,
)
    requires
        splits_at_last(s, c, a1, b1),
        splits_at_last(s, c, a2, b2),
    ensures
        a1 == a2,
        b1 == b2,
{
    if a1.len() < a2.len() {
        assert(s[a2.len() as int] == c);
        assert(b1[a2.len() - a1.len() - 1] == s[a2.len() as int]);
        assert(b1.contains(c));
    } else if a2.len() < a1.len() {
        assert(s[a1.len() as int] == c);
        assert(b2[a1.len() - a2.len() - 1] == s[a1.len() as int]);
        assert(b2.contains(c));
    }
    assert(a1 =~= s.subrange(0, a1.len() as int));
    assert(a2 =~= s.subrange(0, a2.len() as int));
    assert(b1 =~= s.subrange(a1.len() as int + 1, s.len() as int));
    assert(b2 =~= s.subrange(a2.len() as int + 1, s.len() as int));
}

/// A split at the first occurrence is what `split_once_spec` gives.
pub proof fn lemma_split_once_spec(s: Seq<char>, c: char, a: Seq<char>, b: Seq<char>)
    requires
        splits_at_first(s, c, a, b),
    ensures
        split_once_spec(s, c) == Some((a, b)),
{
    assert(s[a.len() as int] == c);
    assert(s.contains(c));
    let ab = choose|ab: (Seq<char>, Seq<char>)| splits_at_first(s, c, ab.0, ab.1);
    assert(splits_at_first(s, c, (a, b).0, (a, b).1));
    lemma_split_first_unique(s, c, a, b, ab.0, ab.1);
}

/// A split at the last occurrence is what `split_last_spec` gives.
pub proof fn lemma_split_last_spec(s: Seq<char>, c: char, a: Seq<char>, b: Seq<char>)
    requires
        splits_at_last(s, c, a, b),
    ensures
        split_last_spec(s, c) == Some((a, b)),
{
    assert(s[a.len() as int] == c);
    assert(s.contains(c));
    let ab = choose|ab: (Seq<char>, Seq<char>)| splits_at_last(s, c, ab.0, ab.1);
    assert(splits_at_last(s, c, (a, b).0, (a, b).1));
    lemma_split_last_unique(s, c, a, b, ab.0, ab.1);
}

/// A split at the last occurrence gives `last_piece_spec`.
pub proof fn lemma_last_piece_spec(s: Seq<char>, c: char, a: Seq<char>, b: Seq<char>)
    requires
        splits_at_last(s, c, a, b),
    ensures
        last_piece_spec(s, c) == b,
{
    assert(s[a.len() as int] == c);
    assert(s.contains(c));
    let ab = choose|ab: (Seq<char>, Seq<char>)| splits_at_last(s, c, ab.0, ab.1);
    assert(splits_at_last(s, c, (a, b).0, (a, b).1));
    lemma_split_last_unique(s, c, a, b, ab.0, ab.1);
}

/// Number of occurrences of `c` in `s`.
pub open spec fn count_char(s: Seq<char>, c: char) -> nat
    decreases s.len(),
{
    if s.len() == 0 {
        0
    } else {
        count_char(s.drop_last(), c) + if s.last() == c { 1nat } else { 0nat }
    }
}

/// Occurrences in a concatenation add up.
pub proof fn lemma_count_concat(a: Seq<char>, b: Seq<char>, c: char)
    ensures
        count_char(a + b, c) == count_char(a, c) + count_char(b, c),
    decreases b.len(),
{
    if b.len() == 0 {
        assert(a + b =~= a);
    } else {
        lemma_count_concat(a, b.drop_last(), c);
        assert((a + b).drop_last() =~= a + b.drop_last());
        assert((a + b).last() == b.last());
    }
}

/// A character occurs in no text where it is never found.
pub proof fn lemma_count_absent(s: Seq<char>, c: char)
    requires
        !s.contains(c),
    ensures
        count_char(s, c) == 0,
    decreases s.len(),
{
    if s.len() > 0 {
        assert(!s.drop_last().contains(c)) by {
            if s.drop_last().contains(c) {
                let i = choose|i: int| 0 <= i < s.drop_last().len() && s.drop_last()[i] == c;
                assert(s[i] == c);
            }
        }
        lemma_count_absent(s.drop_last(), c);
        assert(s[s.len() - 1] != c);
    }
}

/// Whether `pat` occurs in `s` as a contiguous piece.
pub open spec fn contains_piece(s: Seq<char>, pat: Seq<char>) -> bool {
    exists|i: int| 0 <= i && i + pat.len() <= s.len() && #[trigger] s.subrange(i, i + pat.len()) == pat
}

/// Every character is ASCII.
pub open spec fn all_ascii(s: Seq<char>) -> bool {
    forall|i: int| 0 <= i < s.len() ==> (#[trigger] s[i]) as u32 <= 0x7f
}

/// ASCII upper-casing of one character: `a..=z` become `A..=Z`, all other
/// characters stay.
pub open spec fn ascii_upper_char(c: char) -> char {
    if 'a' <= c && c <= 'z' {
        ((c as u32) - 32) as char
    } else {
        c
    }
}

/// ASCII upper-casing of a string, character by character.
pub open spec fn ascii_upper(s: Seq<char>) -> Seq<char> {
    s.map_values(|c: char| ascii_upper_char(c))
}

/// ASCII upper-casing keeps a text ASCII, and doing it twice is doing it
/// once.
pub proof fn lemma_ascii_upper_idempotent(s: Seq<char>)
    requires
        all_ascii(s),
    ensures
        all_ascii(ascii_upper(s)),
        ascii_upper(ascii_upper(s)) == ascii_upper(s),
{
    assert forall|i: int| 0 <= i < s.len() implies (#[trigger] ascii_upper(s)[i]) as u32 <= 0x7f
        && ascii_upper_char(ascii_upper(s)[i]) == ascii_upper(s)[i] by {
        let c = s[i];
        assert(c as u32 <= 0x7f);
        if 'a' <= c && c <= 'z' {
            assert((c as u32) - 32 < 0xD800);
        }
    }
    assert(ascii_upper(ascii_upper(s)) =~= ascii_upper(s));
}

/// ASCII upper-casing brings no character in that is not an upper-case
/// letter and was not there before.
pub proof fn lemma_ascii_upper_absent(s: Seq<char>, c: char)
    requires
        !s.contains(c),
        !('A' <= c && c <= 'Z'),
    ensures
        !ascii_upper(s).contains(c),
{
    if ascii_upper(s).contains(c) {
        let i = choose|i: int| 0 <= i < ascii_upper(s).len() && ascii_upper(s)[i] == c;
        let d = s[i];
        if 'a' <= d && d <= 'z' {
            assert((d as u32) - 32 < 0xD800);
            assert('A' <= ascii_upper_char(d) && ascii_upper_char(d) <= 'Z');
        } else {
            assert(s[i] == c);
        }
    }
}

/// The characters of `s`, in order.
pub fn chars_of(s: &str) -> (res: Vec<char>)
    ensures
        res@ == s@,
{
    let n = s.unicode_len();
    let mut res: Vec<char> = Vec::new();
    let mut i: usize = 0;
    while i < n
        invariant
            n == s@.len(),
            i <= n,
            res@ == s@.subrange(0, i as int),
        decreases n - i,
    {
        let c = s.get_char(i);
        res.push(c);
        i = i + 1;
    }
    res
}

/// The string made of the characters `cs[from..to]`.
pub fn string_of_chars(cs: &Vec<char>, from: usize, to: usize) -> (res: String)
    requires
        from <= to <= cs@.len(),
    ensures
        res@ == cs@.subrange(from as int, to as int),
{
    let mut res = String::new();
    let mut i: usize = from;
    while i < to
        invariant
            from <= i <= to <= cs@.len(),
            res@ == cs@.subrange(from as int, i as int),
        decreases to - i,
    {
        push_char(&mut res, cs[i]);
        i = i + 1;
    }
    res
}

/// Index of the first occurrence of `c` in `cs`, if any.
pub fn find_first(cs: &Vec<char>, c: char) -> (res: Option<usize>)
    ensures
        match res {
            Some(i) => i < cs@.len() && cs@[i as int] == c && forall|j: int|
                0 <= j < i ==> cs@[j] != c,
            None => !cs@.contains(c),
        },
{
    let mut i: usize = 0;
    while i < cs.len()
        invariant
            i <= cs@.len(),
            forall|j: int| 0 <= j < i ==> cs@[j] != c,
        decreases cs.len() - i,
    {
        if cs[i] == c {
            return Some(i);
        }
        i = i + 1;
    }
    None
}

/// Index of the last occurrence of `c` in `cs`, if any.
pub fn find_last(cs: &Vec<char>, c: char) -> (res: Option<usize>)
    ensures
        match res {
            Some(i) => i < cs@.len() && cs@[i as int] == c && forall|j: int|
                i < j < cs@.len() ==> cs@[j] != c,
            None => !cs@.contains(c),
        },
{
    let mut i: usize = cs.len();
    while i > 0
        invariant
            i <= cs@.len(),
            forall|j: int| i <= j < cs@.len() ==> cs@[j] != c,
        decreases i,
    {
        if cs[i - 1] == c {
            return Some(i - 1);
        }
        i = i - 1;
    }
    None
}

/// Splits `s` at the first occurrence of `c`.
pub fn split_once(s: &str, c: char) -> (res: Option<(String, String)>)
    ensures
        match res {
            Some((a, b)) => splits_at_first(s@, c, a@, b@),
            None => !s@.contains(c),
        },
        res matches Some((a, b)) ==> split_once_spec(s@, c) == Some((a@, b@)),
        res is None ==> split_once_spec(s@, c) is None,
{
    let cs = chars_of(s);
    match find_first(&cs, c) {
        Some(i) => {
            assert(i < cs.len());
            let a = string_of_chars(&cs, 0, i);
            let b = string_of_chars(&cs, i + 1, cs.len());
            proof {
                assert(!a@.contains(c));
                lemma_split_once_spec(s@, c, a@, b@);
            }
            Some((a, b))
        },
        None => None,
    }
}

/// The last piece of `s` split at `c`.
pub fn last_piece(s: &str, c: char) -> (res: String)
    ensures
        res@ == last_piece_spec(s@, c),
{
    let cs = chars_of(s);
    match find_last(&cs, c) {
        Some(i) => {
            assert(i < cs.len());
            let a = string_of_chars(&cs, 0, i);
            let b = string_of_chars(&cs, i + 1, cs.len());
            proof {
                assert(!b@.contains(c));
                lemma_last_piece_spec(s@, c, a@, b@);
            }
            b
        },
        None => string_of_chars(&cs, 0, cs.len()),
    }
}

/// Splits `s` at the last occurrence of `c`.
pub fn split_last(s: &str, c: char) -> (res: Option<(String, String)>)
    ensures
        match res {
            Some((a, b)) => split_last_spec(s@, c) == Some((a@, b@)),
            None => split_last_spec(s@, c) is None,
        },
{
    let cs = chars_of(s);
    match find_last(&cs, c) {
        Some(i) => {
            assert(i < cs.len());
            let a = string_of_chars(&cs, 0, i);
            let b = string_of_chars(&cs, i + 1, cs.len());
            proof {
                assert(!b@.contains(c));
                lemma_split_last_spec(s@, c, a@, b@);
            }
            Some((a, b))
        },
        None => None,
    }
}

/// Whether `pat` occurs in `s`.
pub fn contains_text(s: &str, pat: &str) -> (res: bool)
    ensures
        res == contains_piece(s@, pat@),
{
    let cs = chars_of(s);
    let cp = chars_of(pat);
    let n = cs.len();
    let m = cp.len();
    if m > n {
        return false;
    }
    let mut i: usize = 0;
    while i <= n - m
        invariant
            cs@ == s@,
            cp@ == pat@,
            n == cs@.len(),
            m == cp@.len(),
            m <= n,
            i <= n - m + 1,
            forall|j: int| 0 <= j < i ==> #[trigger] cs@.subrange(j, j + m) != cp@,
        decreases n - m + 1 - i,
    {
        let mut k: usize = 0;
        let mut same = true;
        while k < m
            invariant
                cs@ == s@,
                cp@ == pat@,
                n == cs@.len(),
                m == cp@.len(),
                i + m <= n,
                k <= m,
                same == forall|t: int| 0 <= t < k ==> cs@[i + t] == cp@[t],
            decreases m - k,
        {
            if cs[i + k] != cp[k] {
                same = false;
            }
            k = k + 1;
        }
        if same {
            proof {
                assert(cs@.subrange(i as int, i + m) =~= cp@);
            }
            return true;
        }
        proof {
            assert(cs@.subrange(i as int, i + m)[0] == cs@[i as int]);
            let t = choose|t: int| 0 <= t < m && cs@[i + t] != cp@[t];
            assert(cs@.subrange(i as int, i + m)[t] == cs@[i + t]);
        }
        i = i + 1;
    }
    proof {
        assert forall|j: int| 0 <= j && j + m <= n implies #[trigger] cs@.subrange(j, j + m) != cp@ by {
            assert(j < i);
        }
    }
    false
}

/// Whether two texts are equal.
pub fn same_text(a: &str, b: &str) -> (res: bool)
    ensures
        res == (a@ == b@),
{
    let ca = chars_of(a);
    let cb = chars_of(b);
    if ca.len() != cb.len() {
        return false;
    }
    let mut i: usize = 0;
    while i < ca.len()
        invariant
            ca@ == a@,
            cb@ == b@,
            ca@.len() == cb@.len(),
            i <= ca@.len(),
            forall|j: int| 0 <= j < i ==> ca@[j] == cb@[j],
        decreases ca.len() - i,
    {
        if ca[i] != cb[i] {
            return false;
        }
        i = i + 1;
    }
    proof {
        assert(a@ =~= b@);
    }
    true
}

/// The character of the decimal digit `d`.
pub open spec fn digit_char(d: nat) -> char {
    ((d + 48) as u32) as char
}

/// The decimal text of a natural number.
pub open spec fn nat_text(n: nat) -> Seq<char>
    decreases n,
{
    if n < 10 {
        seq![digit_char(n)]
    } else {
        nat_text(n / 10) + seq![digit_char(n % 10)]
    }
}

/// The decimal text of an integer, with a leading `-` when negative.
pub open spec fn int_text(n: int) -> Seq<char> {
    if n < 0 {
        seq!['-'] + nat_text((-n) as nat)
    } else {
        nat_text(n as nat)
    }
}

/// The decimal text of `n`.
pub fn u64_text(n: u64) -> (res: String)
    ensures
        res@ == nat_text(n as nat),
    decreases n,
{
    let d = (n % 10) as u8;
    let c = (d + 48) as char;
    if n < 10 {
        let mut res = String::new();
        push_char(&mut res, c);
        res
    } else {
        let mut res = u64_text(n / 10);
        push_char(&mut res, c);
        res
    }
}

/// The decimal text of `n`, with a leading `-` when negative.
pub fn i64_text(n: i64) -> (res: String)
    ensures
        res@ == int_text(n as int),
{
    if n < 0 {
        let m: u64 = if n == i64::MIN {
            9_223_372_036_854_775_808u64
        } else {
            (-n) as u64
        };
        let mut res = String::new();
        push_char(&mut res, '-');
        let t = u64_text(m);
        res.append(t.as_str());
        res
    } else {
        u64_text(n as u64)
    }
}

} // verus!
