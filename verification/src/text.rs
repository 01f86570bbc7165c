//! Small verified utilities over characters and strings: first-occurrence
//! search, string equality, substring containment, and digit runs.

use vstd::prelude::*;

verus! {

/// Appends one character to a string.
///
/// Relies on std's `String::push`: the documentation says it appends the
/// given char to the end of this String.
#[verifier::external_body]
pub(crate) fn push_char(s: &mut String, c: char)
    ensures
        final(s)@ == old(s)@.push(c),
{
    s.push(c);
}

/// Index of the first occurrence of `c` in `s`, if any.
pub open spec fn index_of_first(s: Seq<char>, c: char) -> Option<int>
    decreases s.len(),
{
    if s.len() == 0 {
        None
    } else if s[0] == c {
        Some(0int)
    } else {
        match index_of_first(s.drop_first(), c) {
            None => None,
            Some(i) => Some(i + 1),
        }
    }
}

pub proof fn lemma_index_of_first(s: Seq<char>, c: char)
    ensures
        match index_of_first(s, c) {
            Some(i) => 0 <= i < s.len() && s[i] == c && (forall|j: int| 0 <= j < i ==> s[j] != c),
            None => forall|j: int| 0 <= j < s.len() ==> s[j] != c,
        },
    decreases s.len(),
{
    if s.len() > 0 && s[0] != c {
        lemma_index_of_first(s.drop_first(), c);
        match index_of_first(s.drop_first(), c) {
            None => {
                assert forall|j: int| 0 <= j < s.len() implies s[j] != c by {
                    if j > 0 {
                        assert(s.drop_first()[j - 1] != c);
                    }
                }
            },
            Some(i) => {
                assert(s.drop_first()[i] == s[i + 1]);
                assert forall|j: int| 0 <= j < i + 1 implies s[j] != c by {
                    if j > 0 {
                        assert(s.drop_first()[j - 1] != c);
                    }
                }
            },
        }
    }
}

/// The first occurrence is pinned: any position that is an occurrence with
/// nothing equal before it is the one `index_of_first` returns.
pub proof fn lemma_index_of_first_unique(s: Seq<char>, c: char, i: int)
    requires
        0 <= i < s.len(),
        s[i] == c,
        forall|j: int| 0 <= j < i ==> s[j] != c,
    ensures
        index_of_first(s, c) == Some(i),
{
    lemma_index_of_first(s, c);
    match index_of_first(s, c) {
        None => {
            assert(false);
        },
        Some(k) => {
            if k < i {
                assert(s[k] != c);
            } else if i < k {
                assert(s[i] != c);
            }
        },
    }
}

/// Finds the first occurrence of `c` in `s` at or after position `start`.
pub fn find_char_from(s: &str, start: usize, c: char) -> (r: Option<usize>)
    requires
        start <= s@.len(),
    ensures
        match r {
            Some(i) => start <= i < s@.len() && s@[i as int] == c && (forall|j: int|
                start <= j < i ==> s@[j] != c),
            None => forall|j: int| start <= j < s@.len() ==> s@[j] != c,
        },
{
    let n = s.unicode_len();
    let mut i = start;
    while i < n
        invariant
            start <= i <= n,
            n == s@.len(),
            forall|j: int| start <= j < i ==> s@[j] != c,
        decreases n - i,
    {
        if s.get_char(i) == c {
            return Some(i);
        }
        i += 1;
    }
    None
}

/// Character-for-character string equality.
pub fn str_eq(a: &str, b: &str) -> (r: bool)
    ensures
        r == (a@ == b@),
{
    let na = a.unicode_len();
    let nb = b.unicode_len();
    if na != nb {
        return false;
    }
    let mut i: usize = 0;
    while i < na
        invariant
            0 <= i <= na,
            na == a@.len(),
            na == b@.len(),
            forall|j: int| 0 <= j < i ==> a@[j] == b@[j],
        decreases na - i,
    {
        if a.get_char(i) != b.get_char(i) {
            return false;
        }
        i += 1;
    }
    proof {
        assert(a@ =~= b@);
    }
    true
}

/// `needle` occurs contiguously somewhere inside `hay`.
pub open spec fn contains_substring(hay: Seq<char>, needle: Seq<char>) -> bool {
    exists|i: int|
        0 <= i && i + needle.len() <= hay.len() && #[trigger] hay.subrange(i, i + needle.len())
            == needle
}

/// Substring search by direct scanning.
pub fn contains_str(hay: &str, needle: &str) -> (r: bool)
    ensures
        r == contains_substring(hay@, needle@),
{
    let nh = hay.unicode_len();
    let nn = needle.unicode_len();
    if nn > nh {
        return false;
    }
    if nn == 0 {
        proof {
            assert(hay@.subrange(0int, 0int + needle@.len()) =~= needle@);
        }
        return true;
    }
    let mut i: usize = 0;
    while i <= nh - nn
        invariant
            0 < nn <= nh,
            nh == hay@.len(),
            nn == needle@.len(),
            0 <= i <= nh - nn + 1,
            forall|k: int| 0 <= k < i ==> #[trigger] hay@.subrange(k, k + nn) != needle@,
        decreases nh - i,
    {
        let mut j: usize = 0;
        let mut mismatch = false;
        while j < nn
            invariant
                0 <= j <= nn,
                i + nn <= nh,
                nh == hay@.len(),
                nn == needle@.len(),
                !mismatch ==> forall|t: int| 0 <= t < j ==> hay@[i + t] == needle@[t],
                mismatch ==> hay@.subrange(i as int, i + nn) != needle@,
            decreases nn - j,
        {
            if hay.get_char(i + j) != needle.get_char(j) {
                proof {
                    assert(hay@.subrange(i as int, i + nn)[j as int] == hay@[i + j]);
                }
                mismatch = true;
                j = nn;
            } else {
                j += 1;
            }
        }
        if !mismatch {
            proof {
                assert(hay@.subrange(i as int, i + nn) =~= needle@);
                assert(0 <= i as int && i as int + needle@.len() <= hay@.len()
                    && hay@.subrange(i as int, i as int + needle@.len()) == needle@);
            }
            return true;
        }
        i += 1;
    }
    proof {
        if contains_substring(hay@, needle@) {
            let k = choose|k: int|
                0 <= k && k + needle@.len() <= hay@.len() && #[trigger] hay@.subrange(
                    k,
                    k + needle@.len(),
                ) == needle@;
            assert(hay@.subrange(k, k + nn) != needle@);
        }
    }
    false
}

/// Whether `c` is a decimal digit.
pub open spec fn is_digit(c: char) -> bool {
    '0' <= c <= '9'
}

/// The longest all-digit prefix of `s`.
pub open spec fn digits_prefix(s: Seq<char>) -> Seq<char>
    decreases s.len(),
{
    if s.len() > 0 && is_digit(s[0]) {
        seq![s[0]] + digits_prefix(s.drop_first())
    } else {
        Seq::empty()
    }
}

/// `digits_prefix` is exactly the run up to the first non-digit.
pub proof fn lemma_digits_prefix(s: Seq<char>, k: int)
    requires
        0 <= k <= s.len(),
        forall|j: int| 0 <= j < k ==> is_digit(s[j]),
        k < s.len() ==> !is_digit(s[k]),
    ensures
        digits_prefix(s) == s.take(k),
    decreases s.len(),
{
    if s.len() > 0 && is_digit(s[0]) {
        assert(k > 0);
        assert(forall|j: int| 0 <= j < k - 1 ==> is_digit(s.drop_first()[j]));
        lemma_digits_prefix(s.drop_first(), k - 1);
        assert(seq![s[0]] + s.drop_first().take(k - 1) =~= s.take(k));
    } else {
        assert(k == 0);
        assert(s.take(0) =~= Seq::<char>::empty());
    }
}

} // verus!
