//! Plain operations on strings, stated over their characters.
use vstd::prelude::*;
#[allow(unused_imports)]
use vstd::string::*;
#[allow(unused_imports)]
use vstd::utf8::{encode_utf8, encode_utf8_decode_utf8};

verus! {

/// Whether two strings hold the same characters.
pub fn str_eq(a: &str, b: &str) -> (r: bool)
    ensures
        r == (a@ == b@),
{
    let x = a.as_bytes();
    let y = b.as_bytes();
    proof {
        encode_utf8_decode_utf8(a@);
        encode_utf8_decode_utf8(b@);
    }
    if x.len() != y.len() {
        return false;
    }
    let mut i: usize = 0;
    while i < x.len()
        invariant
            x@ == encode_utf8(a@),
            y@ == encode_utf8(b@),
            x@.len() == y@.len(),
            i <= x@.len(),
            forall|j: int| 0 <= j < i ==> x@[j] == y@[j],
        decreases x@.len() - i,
    {
        if x[i] != y[i] {
            return false;
        }
        i += 1;
    }
    assert(x@ =~= y@);
    true
}

/// Whether two optional strings are both absent, or both present and equal.
pub fn opt_eq(a: &Option<String>, b: &Option<String>) -> (r: bool)
    ensures
        r == (a.deep_view() == b.deep_view()),
{
    match (a, b) {
        (Some(x), Some(y)) => *x == *y,
        (None, None) => true,
        _ => false,
    }
}

/// The ASCII lower-case form of a character; other characters stand for themselves.
pub open spec fn lower(c: char) -> char {
    if 'A' <= c && c <= 'Z' {
        ((c as u32) + 32) as char
    } else {
        c
    }
}

/// The ASCII lower-case form of a text.
pub open spec fn lower_seq(s: Seq<char>) -> Seq<char> {
    s.map_values(|c: char| lower(c))
}

/// The ASCII upper-case form of a character.
pub open spec fn upper(c: char) -> char {
    if 'a' <= c && c <= 'z' {
        ((c as u32) - 32) as char
    } else {
        c
    }
}

/// The ASCII upper-case form of a text.
pub open spec fn upper_seq(s: Seq<char>) -> Seq<char> {
    s.map_values(|c: char| upper(c))
}

/// Equality of texts up to the case of ASCII letters.
pub open spec fn same_ignoring_case(a: Seq<char>, b: Seq<char>) -> bool {
    lower_seq(a) == lower_seq(b)
}

fn lower_char(c: char) -> (r: char)
    ensures
        r == lower(c),
{
    if 'A' <= c && c <= 'Z' {
        let n: u8 = c as u8;
        (n + 32u8) as char
    } else {
        c
    }
}

/// The characters of a string, one by one.
pub fn chars_of(s: &str) -> (r: Vec<char>)
    ensures
        r@ == s@,
{
    let mut out: Vec<char> = Vec::new();
    for c in it: s.chars()
        invariant
            out@ == it.seq().take(it.index()),
            it.seq() == s@,
    {
        out.push(c);
    }
    out
}

/// Whether two strings are equal up to the case of ASCII letters.
pub fn eq_ignore_ascii_case(a: &str, b: &str) -> (r: bool)
    ensures
        r == same_ignoring_case(a@, b@),
{
    let x = chars_of(a);
    let y = chars_of(b);
    if x.len() != y.len() {
        proof {
            assert(lower_seq(a@).len() == a@.len());
            assert(lower_seq(b@).len() == b@.len());
        }
        return false;
    }
    let mut i: usize = 0;
    while i < x.len()
        invariant
            x@ == a@,
            y@ == b@,
            x@.len() == y@.len(),
            i <= x@.len(),
            forall|j: int| 0 <= j < i ==> lower(x@[j]) == lower(y@[j]),
        decreases x@.len() - i,
    {
        if lower_char(x[i]) != lower_char(y[i]) {
            proof {
                assert(lower_seq(a@)[i as int] != lower_seq(b@)[i as int]);
            }
            return false;
        }
        i += 1;
    }
    assert(lower_seq(a@) =~= lower_seq(b@));
    true
}

/// The first `n` texts of a list, with a separator between neighbours.
pub open spec fn joined(list: Seq<Seq<char>>, sep: Seq<char>, n: nat) -> Seq<char>
    decreases n,
{
    if n == 0 {
        Seq::empty()
    } else if n == 1 {
        list[0]
    } else {
        joined(list, sep, (n - 1) as nat) + sep + list[n - 1]
    }
}

/// The strings of a list in one, with a separator between neighbours.
pub fn join_with(list: &Vec<String>, sep: &str) -> (r: String)
    ensures
        r@ == joined(list.deep_view(), sep@, list@.len()),
{
    let mut out = String::new();
    let mut i: usize = 0;
    while i < list.len()
        invariant
            i <= list@.len(),
            out@ == joined(list.deep_view(), sep@, i as nat),
        decreases list@.len() - i,
    {
        if i > 0 {
            out.append(sep);
        }
        out.append(list[i].as_str());
        i += 1;
        proof {
            assert(list.deep_view()[i - 1] == list@[i - 1]@);
            if i == 1 {
                assert(out@ =~= list.deep_view()[0]);
            } else {
                assert(out@ =~= joined(list.deep_view(), sep@, (i - 1) as nat) + sep@ + list.deep_view()[i - 1]);
            }
        }
    }
    out
}

/// Case makes no difference to a comparison that ignores it.
pub proof fn law_upper_case_is_ignored(s: Seq<char>)
    ensures
        same_ignoring_case(upper_seq(s), s),
{
    assert(lower_seq(upper_seq(s)) =~= lower_seq(s));
}

/// Texts that are equal up to case have the same characters other than letters at the same places.
pub proof fn lemma_same_marks(a: Seq<char>, b: Seq<char>, mark: char)
    requires
        same_ignoring_case(a, b),
        !('a' <= mark && mark <= 'z'),
        !('A' <= mark && mark <= 'Z'),
    ensures
        a.len() == b.len(),
        forall|i: int| 0 <= i < a.len() ==> (#[trigger] a[i] == mark) == (b[i] == mark),
        a.contains(mark) == b.contains(mark),
{
    assert(lower_seq(a).len() == a.len());
    assert(lower_seq(b).len() == b.len());
    assert forall|i: int| 0 <= i < a.len() implies (#[trigger] a[i] == mark) == (b[i] == mark) by {
        assert(lower_seq(a)[i] == lower(a[i]));
        assert(lower_seq(b)[i] == lower(b[i]));
    }
    if a.contains(mark) {
        let i = choose|i: int| 0 <= i < a.len() && a[i] == mark;
        assert(b[i] == mark);
    }
    if b.contains(mark) {
        let i = choose|i: int| 0 <= i < b.len() && b[i] == mark;
        assert(a[i] == mark);
    }
}

/// Parts of texts that are equal up to case are so too.
pub proof fn lemma_same_parts(a: Seq<char>, b: Seq<char>, from: int, to: int)
    requires
        same_ignoring_case(a, b),
        0 <= from <= to <= a.len(),
    ensures
        same_ignoring_case(a.subrange(from, to), b.subrange(from, to)),
{
    assert(lower_seq(a).len() == a.len());
    assert(lower_seq(b).len() == b.len());
    assert(lower_seq(a.subrange(from, to)) =~= lower_seq(a).subrange(from, to));
    assert(lower_seq(b.subrange(from, to)) =~= lower_seq(b).subrange(from, to));
}

} // verus!
