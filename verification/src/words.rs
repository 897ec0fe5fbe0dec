//! String ownership, borrowing and slicing: a word-splitting routine and the
//! small demonstrations built around it.

use vstd::prelude::*;
use vstd::string::{StrSliceExecFns, StringSliceAdditionalSpecFns};
use vstd::utf8::encode_utf8;

verus! {

/// The index of the first space in `s`, or `s.len()` when it has none.
pub open spec fn first_space_index(s: Seq<char>) -> int
    decreases s.len(),
{
    if s.len() == 0 {
        0
    } else if s[0] == ' ' {
        0
    } else {
        1 + first_space_index(s.drop_first())
    }
}

/// An index below which no character is a space, and which is the end or a
/// space itself, is the index of the first space.
pub proof fn lemma_first_space_index_is(s: Seq<char>, i: int)
    requires
        0 <= i <= s.len(),
        forall|k: int| 0 <= k < i ==> s[k] != ' ',
        i < s.len() ==> s[i] == ' ',
    ensures
        first_space_index(s) == i,
    decreases s.len(),
{
    if s.len() > 0 && s[0] != ' ' {
        lemma_first_space_index_is(s.drop_first(), i - 1);
    }
}

/// The prefix of `s` up to its first space: the whole of `s` when it has
/// none.
pub fn first_word(s: &str) -> (w: &str)
    ensures
        w@ == s@.subrange(0, first_space_index(s@)),
{
    let n = s.unicode_len();
    let mut i: usize = 0;
    while i < n
        invariant
            n == s@.len(),
            0 <= i <= n,
            forall|k: int| 0 <= k < i ==> s@[k] != ' ',
        decreases n - i,
    {
        if s.get_char(i) == ' ' {
            proof {
                lemma_first_space_index_is(s@, i as int);
            }
            return s.substring_char(0, i);
        }
        i += 1;
    }
    proof {
        lemma_first_space_index_is(s@, n as int);
    }
    s.substring_char(0, n)
}

/// Hand a string back together with its length in bytes, so that the caller
/// keeps ownership of it.
pub fn calculate_length(s: String) -> (r: (String, usize))
    ensures
        r.0 == s,
        r.1 == encode_utf8(s@).len() as usize,
{
    let t = s.as_str();
    let length = t.len();
    (s, length)
}

/// Moving a string hands its one owner over: the old binding is gone, yet
/// the value itself, here its view, is untouched.
pub fn invalid() {
    let s1: String = "hello".to_owned();
    let ghost v = s1@;
    let s2 = s1;
    assert(s2@ == v);
}

/// Cloning a string leaves both bindings usable, with equal contents.
pub fn valid() {
    let s1: String = "hello".to_owned();
    let s2 = s1.clone();
    assert(s1@ == s2@);
}

/// Takes its argument by value: the string is dropped when it goes out of
/// scope here.
pub fn takes_ownership(some_string: String) {
    let _ = some_string;
}

/// Takes a plain copy: the caller's integer stays usable.
pub fn makes_copy(some_integer: i32) {
    let _ = some_integer;
}

/// Moving a string into a call gives it up; passing an integer copies it,
/// so the original keeps its value.
pub fn ownership_demo() {
    let s: String = "hello".to_owned();
    takes_ownership(s);
    let x: i32 = 5;
    makes_copy(x);
    assert(x == 5);
}

/// `first_word` accepts partial and whole slices of owned strings as well as
/// string literals, and finds the same first word in each.
pub fn slicing_demo() {
    let my_string: String = "hello world".to_owned();
    proof {
        reveal_strlit("hello world");
        reveal_strlit("hello");
    }
    let word = first_word(my_string.as_str().substring_char(0, 6));
    proof {
        lemma_first_space_index_is(my_string@.subrange(0, 6), 5);
        assert(word@ =~= "hello"@);
    }
    let word = first_word(my_string.as_str());
    proof {
        lemma_first_space_index_is(my_string@, 5);
        assert(word@ =~= "hello"@);
    }
    let my_string_literal = "hello world";
    let word = first_word(my_string_literal.substring_char(0, 6));
    proof {
        lemma_first_space_index_is(my_string_literal@.subrange(0, 6), 5);
        assert(word@ =~= "hello"@);
    }
    let word = first_word(my_string_literal);
    proof {
        lemma_first_space_index_is(my_string_literal@, 5);
        assert(word@ =~= "hello"@);
    }
}

} // verus!
