//! Splitting a buffered input stream into tokens: the next
//! whitespace-delimited word and what remains after it. The host layer
//! owns the buffer and the conversion to and from text; this core does the
//! splitting, over plain characters.

use vstd::prelude::*;

verus! {

/// A whitespace character (space, tab, line feed, carriage return).
pub open spec fn is_space_char(c: char) -> bool {
    c == ' ' || c == '\t' || c == '\n' || c == '\r'
}

/// The index of the first whitespace character, or the length.
pub open spec fn first_space(s: Seq<char>) -> int
    decreases s.len(),
{
    if s.len() == 0 {
        0
    } else if is_space_char(s.first()) {
        0
    } else {
        1 + first_space(s.drop_first())
    }
}

/// The first whitespace index cuts the sequence into a space-free prefix
/// and, when in range, a whitespace character at the cut.
pub proof fn lemma_first_space(s: Seq<char>)
    ensures
        0 <= first_space(s) <= s.len(),
        forall|k: int| 0 <= k < first_space(s) ==> !is_space_char(#[trigger] s[k]),
        first_space(s) < s.len() ==> is_space_char(s[first_space(s)]),
    decreases s.len(),
{
    if s.len() > 0 && !is_space_char(s.first()) {
        lemma_first_space(s.drop_first());
        assert forall|k: int| 0 <= k < first_space(s) implies !is_space_char(
            #[trigger] s[k],
        ) by {
            if k > 0 {
                assert(s.drop_first()[k - 1] == s[k]);
            }
        }
        if first_space(s) < s.len() {
            assert(s.drop_first()[first_space(s) - 1] == s[first_space(s)]);
        }
    }
}

/// Splits off the next whitespace-delimited token: everything before the
/// first whitespace character, and everything after it (the delimiter
/// itself is consumed). Without a delimiter the whole input is the token
/// and nothing remains.
#[verifier::loop_isolation(false)]
pub fn next_token(chars: &Vec<char>) -> (r: (Vec<char>, Vec<char>))
    ensures
        r.0@ == chars@.take(first_space(chars@)),
        r.1@ == if first_space(chars@) < chars@.len() {
            chars@.skip(first_space(chars@) + 1)
        } else {
            Seq::<char>::empty()
        },
{
    proof {
        lemma_first_space(chars@);
    }
    let mut cut: usize = 0;
    while cut < chars.len() && !(chars[cut] == ' ' || chars[cut] == '\t' || chars[cut] == '\n'
        || chars[cut] == '\r')
        invariant
            0 <= cut <= chars@.len(),
            forall|k: int| 0 <= k < cut as int ==> !is_space_char(#[trigger] chars@[k]),
        decreases chars@.len() - cut,
    {
        cut = cut + 1;
    }
    proof {
        assert(cut as int == first_space(chars@)) by {
            if cut < chars.len() {
                assert(is_space_char(chars@[cut as int]));
            }
            if (cut as int) < first_space(chars@) {
                assert(!is_space_char(chars@[cut as int]));
            }
            if first_space(chars@) < cut as int {
                assert(!is_space_char(chars@[first_space(chars@)]));
            }
        }
    }
    let mut token: Vec<char> = Vec::new();
    let mut i: usize = 0;
    while i < cut
        invariant
            i <= cut <= chars@.len(),
            token@ =~= chars@.take(cut as int).take(i as int),
        decreases cut - i,
    {
        token.push(chars[i]);
        i = i + 1;
    }
    proof {
        assert(chars@.take(cut as int).take(cut as int) =~= chars@.take(cut as int));
    }
    let mut rest: Vec<char> = Vec::new();
    if cut < chars.len() {
        let mut j: usize = cut + 1;
        while j < chars.len()
            invariant
                cut as int + 1 <= j as int <= chars@.len(),
                rest@ =~= chars@.skip(cut as int + 1).take(j as int - (cut as int + 1)),
            decreases chars@.len() - j,
        {
            rest.push(chars[j]);
            j = j + 1;
        }
        proof {
            assert(chars@.skip(cut as int + 1).take(chars@.len() - (cut as int + 1)) =~= chars@.skip(
                cut as int + 1,
            ));
        }
    }
    (token, rest)
}

} // verus!
