//! Small text operations on strings viewed as sequences of characters:
//! ASCII case-insensitive comparison and joining with a separator.

use vstd::prelude::*;
use vstd::string::*;

verus! {

/// The code point of `c` after ASCII lower-casing: `A`..=`Z` move to
/// `a`..=`z`, every other character keeps its code point.
pub open spec fn ascii_lower_code(c: char) -> u32 {
    let k = c as u32;
    if 65 <= k && k <= 90 {
        (k + 32) as u32
    } else {
        k
    }
}

/// `a` and `b` are equal once both are ASCII lower-cased
/// (the meaning of `str::eq_ignore_ascii_case`).
pub open spec fn eq_ignore_ascii_case(a: Seq<char>, b: Seq<char>) -> bool {
    &&& a.len() == b.len()
    &&& forall|i: int| 0 <= i < a.len() ==> #[trigger] ascii_lower_code(a[i]) == ascii_lower_code(b[i])
}

fn lower_code(c: char) -> (r: u32)
    ensures
        r == ascii_lower_code(c),
        !is_ascii_upper(c) ==> r == c as u32,
        is_ascii_upper(c) ==> r == c as u32 + 32,
{
    let k = c as u32;
    if 65 <= k && k <= 90 {
        k + 32
    } else {
        k
    }
}

/// `c` is one of the ASCII upper-case letters `A` (code point 65) to `Z`
/// (code point 90).
pub open spec fn is_ascii_upper(c: char) -> bool {
    65 <= c as u32 && c as u32 <= 90
}

/// `x` and `y` are the same character, or the same ASCII letter in the two
/// letter cases (the lower-case letter lies 32 above the upper-case one).
pub open spec fn same_ignoring_ascii_case(x: char, y: char) -> bool {
    ||| x == y
    ||| is_ascii_upper(x) && y as u32 == x as u32 + 32
    ||| is_ascii_upper(y) && x as u32 == y as u32 + 32
}

/// Law: two strings are equal ignoring ASCII case exactly when they have
/// the same length and, at every index, the characters are equal or are the
/// same ASCII letter in the two cases. No other pair of characters matches:
/// in particular, characters outside `A`..=`Z` and `a`..=`z` match only
/// themselves, and two different lower-case letters never match.
pub proof fn law_eq_ignore_ascii_case_charwise(a: Seq<char>, b: Seq<char>)
    ensures
        eq_ignore_ascii_case(a, b) <==> (a.len() == b.len() && forall|i: int|
            0 <= i < a.len() ==> #[trigger] same_ignoring_ascii_case(a[i], b[i])),
{
    assert forall|x: char, y: char|
        #![trigger same_ignoring_ascii_case(x, y)]
        (ascii_lower_code(x) == ascii_lower_code(y)) <==> same_ignoring_ascii_case(x, y) by {
        law_ascii_lower_code(x);
        law_ascii_lower_code(y);
        if ascii_lower_code(x) == ascii_lower_code(y) {
            if !is_ascii_upper(x) && !is_ascii_upper(y) {
                assert(x as u32 == y as u32);
                lemma_char_code_injective(x, y);
            } else if is_ascii_upper(x) && is_ascii_upper(y) {
                assert(x as u32 == y as u32);
                lemma_char_code_injective(x, y);
            }
        }
    }
    if eq_ignore_ascii_case(a, b) {
        assert forall|i: int| 0 <= i < a.len() implies #[trigger] same_ignoring_ascii_case(a[i], b[i]) by {
            assert(ascii_lower_code(a[i]) == ascii_lower_code(b[i]));
        }
    }
    if a.len() == b.len() && forall|i: int|
        0 <= i < a.len() ==> #[trigger] same_ignoring_ascii_case(a[i], b[i]) {
        assert forall|i: int| 0 <= i < a.len() implies #[trigger] ascii_lower_code(a[i])
            == ascii_lower_code(b[i]) by {
            assert(same_ignoring_ascii_case(a[i], b[i]));
        }
    }
}

proof fn lemma_char_code_injective(x: char, y: char)
    requires
        x as u32 == y as u32,
    ensures
        x == y,
{
}

/// Law: ASCII lower-casing moves `A`..=`Z` 32 code points up, onto
/// `a`..=`z`, and leaves every other character where it is.
pub proof fn law_ascii_lower_code(c: char)
    ensures
        !is_ascii_upper(c) ==> ascii_lower_code(c) == c as u32,
        is_ascii_upper(c) ==> ascii_lower_code(c) == c as u32 + 32,
        97 <= ascii_lower_code(c) <= 122 ==> (is_ascii_upper(c) || c as u32 == ascii_lower_code(c)),
{
}

/// Compares two strings, ignoring the case of ASCII letters.
pub fn str_eq_ignore_ascii_case(a: &str, b: &str) -> (r: bool)
    ensures
        r == eq_ignore_ascii_case(a@, b@),
        r <==> (a@.len() == b@.len() && forall|i: int|
            0 <= i < a@.len() ==> #[trigger] same_ignoring_ascii_case(a@[i], b@[i])),
{
    proof {
        law_eq_ignore_ascii_case_charwise(a@, b@);
    }
    let n = a.unicode_len();
    if n != b.unicode_len() {
        return false;
    }
    let mut i: usize = 0;
    while i < n
        invariant
            n == a@.len(),
            n == b@.len(),
            i <= n,
            forall|j: int| 0 <= j < i ==> #[trigger] ascii_lower_code(a@[j]) == ascii_lower_code(b@[j]),
        decreases n - i,
    {
        if lower_code(a.get_char(i)) != lower_code(b.get_char(i)) {
            proof {
                law_eq_ignore_ascii_case_charwise(a@, b@);
            }
            return false;
        }
        i = i + 1;
    }
    true
}

/// The views of a sequence of strings.
pub open spec fn strings_view(v: Seq<String>) -> Seq<Seq<char>> {
    v.map_values(|s: String| s@)
}

/// `parts` written one after another with `sep` between neighbours.
pub open spec fn join_with(parts: Seq<Seq<char>>, sep: Seq<char>) -> Seq<char>
    decreases parts.len(),
{
    if parts.len() == 0 {
        Seq::empty()
    } else if parts.len() == 1 {
        parts[0]
    } else {
        join_with(parts.drop_last(), sep) + sep + parts.last()
    }
}

/// Joins `parts` with `sep` between neighbours.
pub fn join(parts: &Vec<String>, sep: &str) -> (r: String)
    ensures
        r@ == join_with(strings_view(parts@), sep@),
{
    let ghost all = strings_view(parts@);
    let mut r = String::new();
    let mut i: usize = 0;
    while i < parts.len()
        invariant
            i <= parts.len(),
            all == strings_view(parts@),
            r@ == join_with(all.take(i as int), sep@),
        decreases parts.len() - i,
    {
        assert(all.take(i + 1).drop_last() =~= all.take(i as int));
        if i != 0 {
            r.append(sep);
        }
        r.append(parts[i].as_str());
        i = i + 1;
    }
    assert(all.take(parts.len() as int) =~= all);
    r
}

} // verus!
