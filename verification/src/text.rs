//! Character and string helpers shared by the prompt engine and the loader:
//! whitespace trimming and exact string comparison, specified over `Seq<char>`.

use vstd::prelude::*;

verus! {

/// A character removed by trimming: ASCII space, tab, line feed or carriage return.
pub open spec fn is_blank(c: char) -> bool {
    c == ' ' || c == '\t' || c == '\n' || c == '\r'
}

/// `s` with its leading blanks removed.
pub open spec fn trim_front(s: Seq<char>) -> Seq<char>
    decreases s.len(),
{
    if s.len() > 0 && is_blank(s[0]) {
        trim_front(s.drop_first())
    } else {
        s
    }
}

/// `s` with its trailing blanks removed.
pub open spec fn trim_back(s: Seq<char>) -> Seq<char>
    decreases s.len(),
{
    if s.len() > 0 && is_blank(s[s.len() - 1]) {
        trim_back(s.drop_last())
    } else {
        s
    }
}

/// `s` with leading and trailing blanks removed.
pub open spec fn trimmed(s: Seq<char>) -> Seq<char> {
    trim_back(trim_front(s))
}

fn is_blank_char(c: char) -> (r: bool)
    ensures
        r == is_blank(c),
{
    c == ' ' || c == '\t' || c == '\n' || c == '\r'
}

proof fn lemma_trim_front_skip(s: Seq<char>, lo: int)
    requires
        0 <= lo <= s.len(),
        forall|k: int| 0 <= k < lo ==> is_blank(s[k]),
    ensures
        trim_front(s) == trim_front(s.skip(lo)),
    decreases lo,
{
    if lo > 0 {
        assert(s.skip(0) =~= s);
        assert(s.drop_first() =~= s.skip(1));
        lemma_trim_front_skip(s.drop_first(), lo - 1);
        assert(s.drop_first().skip(lo - 1) =~= s.skip(lo));
    } else {
        assert(s.skip(0) =~= s);
    }
}

proof fn lemma_trim_back_take(s: Seq<char>, hi: int)
    requires
        0 <= hi <= s.len(),
        forall|k: int| hi <= k < s.len() ==> is_blank(s[k]),
    ensures
        trim_back(s) == trim_back(s.take(hi)),
    decreases s.len() - hi,
{
    if hi < s.len() {
        assert(is_blank(s[s.len() - 1]));
        assert(s.drop_last() =~= s.take(s.len() - 1));
        lemma_trim_back_take(s.take(s.len() - 1), hi);
        assert(s.take(s.len() - 1).take(hi) =~= s.take(hi));
    } else {
        assert(s.take(s.len() as int) =~= s);
    }
}

/// A copy of `s` with leading and trailing blanks removed, as `trimmed` says.
pub fn trim_str(s: &str) -> (r: String)
    ensures
        r@ == trimmed(s@),
{
    let n = s.unicode_len();
    let mut lo: usize = 0;
    while lo < n && is_blank_char(s.get_char(lo))
        invariant
            n == s@.len(),
            0 <= lo <= n,
            forall|k: int| 0 <= k < lo ==> is_blank(s@[k]),
        decreases n - lo,
    {
        lo = lo + 1;
    }
    proof {
        lemma_trim_front_skip(s@, lo as int);
    }
    let mut hi: usize = n;
    while hi > lo && is_blank_char(s.get_char(hi - 1))
        invariant
            n == s@.len(),
            0 <= lo <= hi <= n,
            forall|k: int| hi <= k < n ==> is_blank(s@[k]),
        decreases hi,
    {
        hi = hi - 1;
    }
    proof {
        lemma_trim_back_take(s@.skip(lo as int), hi - lo);
        assert(s@.skip(lo as int).take(hi - lo) =~= s@.subrange(lo as int, hi as int));
        if lo < hi {
            assert(trim_front(s@.skip(lo as int)) == s@.skip(lo as int)) by {
                assert(!is_blank(s@.skip(lo as int)[0]));
            }
        } else {
            assert(s@.subrange(lo as int, hi as int) =~= Seq::<char>::empty());
            assert(trim_front(s@.skip(lo as int)) == trim_back(s@.skip(lo as int)));
            assert(trimmed(s@) == trim_back(trim_front(s@.skip(lo as int))));
        }
        assert(trim_back(s@.subrange(lo as int, hi as int)) == s@.subrange(lo as int, hi as int))
            by {
            if lo < hi {
                assert(!is_blank(s@.subrange(lo as int, hi as int)[hi - lo - 1]));
            }
        }
    }
    let t = s.substring_char(lo, hi);
    t.to_owned()
}

/// True exactly when the two strings hold the same characters.
pub fn str_eq(a: &str, b: &str) -> (r: bool)
    ensures
        r == (a@ == b@),
{
    let na = a.unicode_len();
    let nb = b.unicode_len();
    if na != nb {
        return false;
    }
    let mut i: usize = 0;
    while i < na
        invariant
            na == a@.len(),
            nb == b@.len(),
            na == nb,
            0 <= i <= na,
            forall|k: int| 0 <= k < i ==> a@[k] == b@[k],
        decreases na - i,
    {
        if a.get_char(i) != b.get_char(i) {
            return false;
        }
        i = i + 1;
    }
    proof {
        assert(a@ =~= b@);
    }
    true
}

} // verus!
