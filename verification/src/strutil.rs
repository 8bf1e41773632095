//! Character-sequence utilities: the byte-lexicographic order on strings
//! that canonical JSON sorts object keys by, and verified comparison and
//! equality on `&str`.

use vstd::prelude::*;

verus! {

/// Lexicographic order on character sequences by code point, with a
/// prefix ordered before every extension of it.
pub open spec fn lex_le(a: Seq<char>, b: Seq<char>) -> bool
    decreases a.len(),
{
    if a.len() == 0 {
        true
    } else if b.len() == 0 {
        false
    } else if a[0] != b[0] {
        a[0] < b[0]
    } else {
        lex_le(a.drop_first(), b.drop_first())
    }
}

pub proof fn lemma_lex_le_refl(a: Seq<char>)
    ensures
        lex_le(a, a),
    decreases a.len(),
{
    if a.len() > 0 {
        lemma_lex_le_refl(a.drop_first());
    }
}

pub proof fn lemma_lex_le_total(a: Seq<char>, b: Seq<char>)
    ensures
        lex_le(a, b) || lex_le(b, a),
    decreases a.len(),
{
    if a.len() == 0 {
    } else if b.len() == 0 {
    } else if a[0] == b[0] {
        lemma_lex_le_total(a.drop_first(), b.drop_first());
    }
}

pub proof fn lemma_lex_le_antisym(a: Seq<char>, b: Seq<char>)
    requires
        lex_le(a, b),
        lex_le(b, a),
    ensures
        a == b,
    decreases a.len(),
{
    if a.len() == 0 {
        assert(a =~= b);
    } else {
        lemma_lex_le_antisym(a.drop_first(), b.drop_first());
        assert forall|i: int| 0 <= i < a.len() implies a[i] == b[i] by {
            if i > 0 {
                assert(a.drop_first()[i - 1] == b.drop_first()[i - 1]);
            }
        }
        assert(a =~= b);
    }
}

pub proof fn lemma_lex_le_trans(a: Seq<char>, b: Seq<char>, c: Seq<char>)
    requires
        lex_le(a, b),
        lex_le(b, c),
    ensures
        lex_le(a, c),
    decreases a.len(),
{
    if a.len() == 0 {
    } else if b.len() == 0 {
    } else if c.len() == 0 {
    } else {
        if a[0] == b[0] && b[0] == c[0] {
            lemma_lex_le_trans(a.drop_first(), b.drop_first(), c.drop_first());
        }
    }
}

/// If the first `i` characters agree, the order is decided by the tails.
proof fn lemma_lex_le_common_prefix(a: Seq<char>, b: Seq<char>, i: int)
    requires
        0 <= i <= a.len(),
        i <= b.len(),
        forall|j: int| 0 <= j < i ==> a[j] == b[j],
    ensures
        lex_le(a, b) == lex_le(a.skip(i), b.skip(i)),
    decreases i,
{
    if i > 0 {
        assert(a.len() > 0 && b.len() > 0);
        assert(a[0] == b[0]);
        lemma_lex_le_common_prefix(a.drop_first(), b.drop_first(), i - 1);
        assert(a.drop_first().skip(i - 1) =~= a.skip(i));
        assert(b.drop_first().skip(i - 1) =~= b.skip(i));
    } else {
        assert(a.skip(0) =~= a);
        assert(b.skip(0) =~= b);
    }
}

/// Whether `a` comes no later than `b` in the key order.
pub fn lex_le_str(a: &str, b: &str) -> (r: bool)
    ensures
        r == lex_le(a@, b@),
{
    let a_len = a.unicode_len();
    let b_len = b.unicode_len();
    let mut i: usize = 0;
    while i < a_len && i < b_len
        invariant
            i <= a_len,
            i <= b_len,
            a_len == a@.len(),
            b_len == b@.len(),
            forall|j: int| 0 <= j < i ==> a@[j] == b@[j],
        decreases a_len - i,
    {
        let ca = a.get_char(i);
        let cb = b.get_char(i);
        if ca != cb {
            proof {
                lemma_lex_le_common_prefix(a@, b@, i as int);
                assert(a@.skip(i as int)[0] == a@[i as int]);
                assert(b@.skip(i as int)[0] == b@[i as int]);
            }
            return ca < cb;
        }
        i = i + 1;
    }
    proof {
        lemma_lex_le_common_prefix(a@, b@, i as int);
    }
    a_len <= b_len
}

/// Whether two strings hold the same characters.
pub fn eq_str(a: &str, b: &str) -> (r: bool)
    ensures
        r == (a@ == b@),
{
    let a_len = a.unicode_len();
    let b_len = b.unicode_len();
    if a_len != b_len {
        return false;
    }
    let mut i: usize = 0;
    while i < a_len
        invariant
            i <= a_len,
            a_len == a@.len(),
            a_len == b@.len(),
            forall|j: int| 0 <= j < i ==> a@[j] == b@[j],
        decreases a_len - i,
    {
        if a.get_char(i) != b.get_char(i) {
            return false;
        }
        i = i + 1;
    }
    proof {
        assert(a@ =~= b@);
    }
    true
}

/// Relies on `String::push`: appends one character at the end.
#[verifier::external_body]
pub fn push_char(s: &mut String, c: char)
    ensures
        final(s)@ == old(s)@.push(c),
{
    s.push(c);
}

/// The position of the first `'.'`, or the length when none occurs.
pub open spec fn first_dot(s: Seq<char>) -> int
    decreases s.len(),
{
    if s.len() == 0 {
        0
    } else if s[0] == '.' {
        0
    } else {
        1 + first_dot(s.drop_first())
    }
}

pub proof fn lemma_first_dot_bounds(s: Seq<char>)
    ensures
        0 <= first_dot(s) <= s.len(),
        forall|j: int| 0 <= j < first_dot(s) ==> s[j] != '.',
        first_dot(s) < s.len() ==> s[first_dot(s)] == '.',
    decreases s.len(),
{
    if s.len() > 0 && s[0] != '.' {
        lemma_first_dot_bounds(s.drop_first());
        assert forall|j: int| 0 <= j < first_dot(s) implies s[j] != '.' by {
            if j > 0 {
                assert(s.drop_first()[j - 1] == s[j]);
            }
        }
    }
}

/// `first_dot` is pinned down by its two defining properties.
pub proof fn lemma_first_dot_is(s: Seq<char>, i: int)
    requires
        0 <= i <= s.len(),
        forall|j: int| 0 <= j < i ==> s[j] != '.',
        i < s.len() ==> s[i] == '.',
    ensures
        first_dot(s) == i,
    decreases i,
{
    if i > 0 {
        lemma_first_dot_is(s.drop_first(), i - 1);
    }
}

/// The segments of `s` between its dots, dots dropped, in order.
pub open spec fn dot_split(s: Seq<char>) -> Seq<Seq<char>>
    decreases s.len(),
{
    let i = first_dot(s);
    if i >= s.len() {
        seq![s]
    } else {
        {
            proof {
                lemma_first_dot_bounds(s);
            }
            seq![s.take(i)] + dot_split(s.skip(i + 1))
        }
    }
}

/// Splitting a dot-free string yields the string alone.
pub proof fn lemma_dot_split_whole(s: Seq<char>)
    requires
        forall|i: int| 0 <= i < s.len() ==> s[i] != '.',
    ensures
        dot_split(s) == seq![s],
{
    lemma_first_dot_is(s, s.len() as int);
}

/// Joining three dot-free segments with dots splits back to them.
pub proof fn lemma_dot_split_three(a: Seq<char>, b: Seq<char>, c: Seq<char>)
    requires
        forall|i: int| 0 <= i < a.len() ==> a[i] != '.',
        forall|i: int| 0 <= i < b.len() ==> b[i] != '.',
        forall|i: int| 0 <= i < c.len() ==> c[i] != '.',
    ensures
        dot_split(a + seq!['.'] + b + seq!['.'] + c) == seq![a, b, c],
{
    let s = a + seq!['.'] + b + seq!['.'] + c;
    let t = b + seq!['.'] + c;
    assert forall|j: int| 0 <= j < a.len() implies s[j] != '.' by {
        assert(s[j] == a[j]);
    }
    assert(s[a.len() as int] == '.');
    lemma_first_dot_is(s, a.len() as int);
    assert(s.take(a.len() as int) =~= a);
    assert(s.skip(a.len() as int + 1) =~= t);
    assert forall|j: int| 0 <= j < b.len() implies t[j] != '.' by {
        assert(t[j] == b[j]);
    }
    assert(t[b.len() as int] == '.');
    lemma_first_dot_is(t, b.len() as int);
    assert(t.take(b.len() as int) =~= b);
    assert(t.skip(b.len() as int + 1) =~= c);
    lemma_dot_split_whole(c);
    assert(dot_split(s) == seq![s.take(a.len() as int)] + dot_split(s.skip(a.len() as int + 1)));
    assert(dot_split(s) == seq![a] + dot_split(t));
    assert(dot_split(t) == seq![t.take(b.len() as int)] + dot_split(t.skip(b.len() as int + 1)));
    assert(dot_split(t) == seq![b] + dot_split(c));
    assert(dot_split(s) =~~= seq![a, b, c]);
}

/// Split a string on `'.'`.
#[verifier::loop_isolation(false)]
pub fn split_dots(s: &str) -> (r: Vec<String>)
    ensures
        r.deep_view() == dot_split(s@),
    decreases s@.len(),
{
    let n = s.unicode_len();
    let mut i: usize = 0;
    while i < n && s.get_char(i) != '.'
        invariant
            i <= n,
            forall|j: int| 0 <= j < i ==> s@[j] != '.',
        decreases n - i,
    {
        i = i + 1;
    }
    proof {
        lemma_first_dot_is(s@, i as int);
    }
    if i == n {
        let mut r: Vec<String> = Vec::new();
        r.push(String::from_str(s));
        proof {
            assert(r.deep_view() =~~= dot_split(s@));
        }
        r
    } else {
        let head = s.substring_char(0, i);
        let tail = s.substring_char(i + 1, n);
        let mut r = split_dots(tail);
        r.insert(0, String::from_str(head));
        proof {
            assert(tail@ =~= s@.skip(i + 1));
            assert(head@ =~= s@.take(i as int));
            assert(r.deep_view() =~~= dot_split(s@));
        }
        r
    }
}

} // verus!
