//! Laws of the operations on strings.

use crate::text::{
    chars_of, contains, decimal_of, joined, replaced_first, same, search_from, stands_at,
    starts_with, string_of, to_lower, trimmed, white,
};
use vstd::prelude::*;

verus! {

/// The character with this code is white space.
pub open spec fn is_blank(c: char) -> bool {
    let code = c as int;
    ||| 9 <= code <= 13 || code == 32
    ||| code == 0x85 || code == 0xa0 || code == 0x1680
    ||| 0x2000 <= code <= 0x200a
    ||| code == 0x2028 || code == 0x2029 || code == 0x202f || code == 0x205f || code == 0x3000
}

/// The tab, the line breaks, the space and the other spaces of Unicode are white
/// space, and nothing else is.
pub proof fn white_space_is_blank(c: char, r: bool)
    requires
        call_ensures(white, (c,), r),
    ensures
        r <==> is_blank(c),
{
}

/// The characters of `pat` stand in `s` one after the other from position `i` on.
pub open spec fn reads(s: Seq<char>, i: int, pat: Seq<char>) -> bool {
    &&& 0 <= i
    &&& i + pat.len() <= s.len()
    &&& forall|k: int| 0 <= k < pat.len() ==> s[i + k] == #[trigger] pat[k]
}

/// Position `i` is the first one at or after `from` at which `pat` stands.
pub open spec fn first_reads(s: Seq<char>, pat: Seq<char>, from: int, i: int) -> bool {
    &&& from <= i
    &&& reads(s, i, pat)
    &&& forall|j: int| from <= j < i ==> !#[trigger] reads(s, j, pat)
}

/// `pat` stands nowhere at or after `from`.
pub open spec fn never_reads(s: Seq<char>, pat: Seq<char>, from: int) -> bool {
    forall|j: int| from <= j ==> !#[trigger] reads(s, j, pat)
}

/// What is left of `s` between `a` and `b` is `s` without the white space at its
/// ends: what was taken off is white space, and what is left neither begins nor
/// ends with any.
pub open spec fn trimmed_at(s: Seq<char>, a: int, b: int) -> bool {
    &&& 0 <= a <= b <= s.len()
    &&& forall|i: int| 0 <= i < a ==> is_blank(#[trigger] s[i])
    &&& forall|i: int| b <= i < s.len() ==> is_blank(#[trigger] s[i])
    &&& a < b ==> !is_blank(s[a]) && !is_blank(s[b - 1])
}

/// `part` is `whole` without the white space at its ends.
pub open spec fn trims_to(whole: Seq<char>, part: Seq<char>) -> bool {
    exists|a: int, b: int| #[trigger] trimmed_at(whole, a, b) && part == whole.subrange(a, b)
}

/// A text occurs at a position where its characters stand there.
pub proof fn occurs_is_reads(s: Seq<char>, pat: Seq<char>, i: int)
    ensures
        crate::text::occurs_at(s, pat, i) <==> reads(s, i, pat),
{
    if 0 <= i && i + pat.len() <= s.len() {
        let sub = s.subrange(i, i + pat.len());
        if reads(s, i, pat) {
            assert(sub == pat);
        }
        if sub == pat {
            assert forall|k: int| 0 <= k < pat.len() implies s[i + k] == #[trigger] pat[k] by {
                assert(sub[k] == s[i + k]);
            }
        }
    }
}

/// What is found is the first occurrence.
pub proof fn find_is_first(s: Seq<char>, pat: Seq<char>, from: int)
    requires
        0 <= from,
    ensures
        match crate::text::find_from(s, pat, from) {
            Some(i) => first_reads(s, pat, from, i),
            None => never_reads(s, pat, from),
        },
{
    crate::text::find_is_least(s, pat, from);
    assert forall|j: int| crate::text::occurs_at(s, pat, j) <==> #[trigger] reads(s, j, pat) by {
        occurs_is_reads(s, pat, j);
    }
}

/// Taking a string apart and putting all of it together again gives the string;
/// putting a part together gives the characters of that part.
pub proof fn strings_come_back(s: &str, v: Vec<char>, from: usize, to: usize, r: String)
    requires
        call_ensures(chars_of, (s,), v),
        call_ensures(string_of, (&v, from, to), r),
        from <= to <= v@.len(),
    ensures
        r@.len() == to - from,
        forall|i: int| 0 <= i < r@.len() ==> #[trigger] r@[i] == s@[from + i],
        from == 0 && to == v@.len() ==> r@ == s@,
{
    assert(s@.subrange(0, s@.len() as int) == s@);
}

/// Two strings are the same exactly where they have the same characters.
pub proof fn same_compares_all_characters(a: &str, b: &str, r: bool)
    requires
        call_ensures(same, (a, b), r),
    ensures
        r <==> a@.len() == b@.len() && forall|i: int|
            0 <= i < a@.len() ==> #[trigger] a@[i] == b@[i],
{
    if a@.len() == b@.len() && forall|i: int| 0 <= i < a@.len() ==> #[trigger] a@[i] == b@[i] {
        assert(a@ == b@);
    }
}

/// A search finds the first place at or after its start where the characters of
/// the pattern stand, and finds nothing exactly where there is none.
pub proof fn a_search_finds_the_first_place(
    s: Vec<char>,
    pat: Vec<char>,
    from: usize,
    r: Option<usize>,
)
    requires
        call_ensures(search_from, (&s, &pat, from), r),
    ensures
        match r {
            Some(i) => first_reads(s@, pat@, from as int, i as int),
            None => never_reads(s@, pat@, from as int),
        },
{
    find_is_first(s@, pat@, from as int);
}

/// A string contains another, or begins with it, exactly where its characters
/// stand somewhere, or at the start.
pub proof fn strings_are_contained_by_their_characters(
    s: Vec<char>,
    pat: Vec<char>,
    text: &str,
    i: usize,
    inside: bool,
    begins: bool,
    stands: bool,
)
    requires
        call_ensures(contains, (&s, text), inside),
        call_ensures(starts_with, (&s, text), begins),
        call_ensures(stands_at, (&s, &pat, i), stands),
    ensures
        inside <==> exists|j: int| #[trigger] reads(s@, j, text@),
        begins <==> reads(s@, 0, text@),
        stands <==> reads(s@, i as int, pat@),
{
    find_is_first(s@, text@, 0);
    occurs_is_reads(s@, text@, 0);
    occurs_is_reads(s@, pat@, i as int);
    if let Some(j) = crate::text::find(s@, text@) {
        assert(reads(s@, j, text@));
    }
}

/// Trimming the start takes off the white space there, `n` characters of it.
pub proof fn trim_start_takes_white(s: Seq<char>) -> (n: int)
    ensures
        0 <= n <= s.len(),
        crate::text::trim_start(s) == s.skip(n),
        forall|i: int| 0 <= i < n ==> is_blank(#[trigger] s[i]),
        n < s.len() ==> !is_blank(s[n]),
    decreases s.len(),
{
    if s.len() > 0 && is_blank(s[0]) {
        let n = trim_start_takes_white(s.drop_first());
        assert(s.drop_first().skip(n) == s.skip(n + 1));
        assert forall|i: int| 0 <= i < n + 1 implies is_blank(#[trigger] s[i]) by {
            if i > 0 {
                assert(s.drop_first()[i - 1] == s[i]);
            }
        }
        n + 1
    } else {
        assert(s.skip(0) == s);
        0
    }
}

/// Trimming the end takes off the white space there, and leaves `n` characters.
pub proof fn trim_end_takes_white(s: Seq<char>) -> (n: int)
    ensures
        0 <= n <= s.len(),
        crate::text::trim_end(s) == s.take(n),
        forall|i: int| n <= i < s.len() ==> is_blank(#[trigger] s[i]),
        n > 0 ==> !is_blank(s[n - 1]),
    decreases s.len(),
{
    if s.len() > 0 && is_blank(s.last()) {
        let n = trim_end_takes_white(s.drop_last());
        assert(s.drop_last().take(n) == s.take(n));
        assert forall|i: int| n <= i < s.len() implies is_blank(#[trigger] s[i]) by {
            if i < s.len() - 1 {
                assert(s.drop_last()[i] == s[i]);
            }
        }
        n
    } else {
        assert(s.take(s.len() as int) == s);
        s.len() as int
    }
}

/// Trimming takes off the white space at both ends.
pub proof fn trim_trims(s: Seq<char>)
    ensures
        trims_to(s, crate::text::trim(s)),
{
    let a = trim_start_takes_white(s);
    let mid = s.skip(a);
    let b = trim_end_takes_white(mid);
    assert(mid.take(b) == s.subrange(a, a + b));
    assert forall|i: int| a + b <= i < s.len() implies is_blank(#[trigger] s[i]) by {
        assert(mid[i - a] == s[i]);
    }
    if b > 0 {
        assert(mid[0] == s[a] && mid[b - 1] == s[a + b - 1]);
    }
    assert(trimmed_at(s, a, a + b));
}

/// There is only one way to trim a text.
pub proof fn trimming_is_unique(whole: Seq<char>, p: Seq<char>, q: Seq<char>)
    requires
        trims_to(whole, p),
        trims_to(whole, q),
    ensures
        p == q,
{
    let (a, b) = choose|a: int, b: int|
        #[trigger] trimmed_at(whole, a, b) && p == whole.subrange(a, b);
    let (c, d) = choose|a: int, b: int|
        #[trigger] trimmed_at(whole, a, b) && q == whole.subrange(a, b);
    if a < b {
        assert(!is_blank(whole[a]) && !is_blank(whole[b - 1]));
    }
    if c < d {
        assert(!is_blank(whole[c]) && !is_blank(whole[d - 1]));
    }
    assert(p == q);
}

/// Trimming takes off white space at the ends and nothing else; a text that
/// neither begins nor ends with white space is kept as it is.
pub proof fn trimming_takes_only_white_space(
    v: Vec<char>,
    from: usize,
    to: usize,
    r: String,
)
    requires
        call_ensures(trimmed, (&v, from, to), r),
        from <= to <= v@.len(),
    ensures
        trims_to(v@.subrange(from as int, to as int), r@),
        from < to && !is_blank(v@[from as int]) && !is_blank(v@[to - 1]) ==> r@ == v@.subrange(
            from as int,
            to as int,
        ),
{
    let s = v@.subrange(from as int, to as int);
    trim_trims(s);
    if from < to && !is_blank(v@[from as int]) && !is_blank(v@[to - 1]) {
        assert(s.subrange(0, s.len() as int) == s);
        assert(trimmed_at(s, 0, s.len() as int));
        assert(trims_to(s, s));
        trimming_is_unique(s, s, r@);
    }
}

/// Only the capitals from A to Z change, each into its small letter.
pub proof fn only_capitals_become_small(s: &str, r: Vec<char>)
    requires
        call_ensures(to_lower, (s,), r),
    ensures
        r@.len() == s@.len(),
        forall|i: int|
            0 <= i < s@.len() ==> #[trigger] r@[i] as int == (if 65 <= s@[i] as int <= 90 {
                s@[i] as int + 32
            } else {
                s@[i] as int
            }),
{
}

/// Joining puts the one string behind the other.
pub proof fn joining_keeps_both(a: &str, b: &str, r: String)
    requires
        call_ensures(joined, (a, b), r),
    ensures
        r@.take(a@.len() as int) == a@,
        r@.skip(a@.len() as int) == b@,
        r@.len() == a@.len() + b@.len(),
{
}

/// Replacing changes the first occurrence and nothing else; where there is none
/// the string stays.
pub proof fn replacing_changes_the_first_place(
    s: &str,
    pat: &str,
    with: &str,
    r: String,
    i: int,
)
    requires
        call_ensures(replaced_first, (s, pat, with), r),
    ensures
        never_reads(s@, pat@, 0) ==> r@ == s@,
        first_reads(s@, pat@, 0, i) ==> {
            &&& r@.take(i) == s@.take(i)
            &&& r@.subrange(i, i + with@.len()) == with@
            &&& r@.skip(i + with@.len()) == s@.skip(i + pat@.len())
        },
{
    find_is_first(s@, pat@, 0);
    if first_reads(s@, pat@, 0, i) {
        let j = crate::text::find(s@, pat@)->0;
        if j < i {
            assert(reads(s@, j, pat@));
        }
        if i < j {
            assert(reads(s@, i, pat@));
        }
        assert(i == j);
        assert(r@.take(i) == s@.take(i));
        assert(r@.subrange(i, i + with@.len()) == with@);
        assert(r@.skip(i + with@.len()) == s@.skip(i + pat@.len()));
    } else if never_reads(s@, pat@, 0) {
        if let Some(j) = crate::text::find(s@, pat@) {
            assert(reads(s@, j, pat@));
        }
    }
}

/// The number that decimal digits stand for.
pub open spec fn number_read(s: Seq<char>) -> int
    decreases s.len(),
{
    if s.len() == 0 {
        0
    } else {
        10 * number_read(s.drop_last()) + (s.last() as int - 48)
    }
}

/// A decimal is made of digits, the first of which is no zero but for nothing itself,
/// and reads as its number.
pub proof fn decimal_reads_back(n: nat)
    ensures
        number_read(crate::text::decimal(n)) == n,
        crate::text::decimal(n).len() > 0,
        forall|i: int|
            0 <= i < crate::text::decimal(n).len() ==> 48 <= (#[trigger] crate::text::decimal(n)[i])
                as int <= 57,
        n > 0 ==> crate::text::decimal(n)[0] as int != 48,
        n == 0 ==> crate::text::decimal(n).len() == 1,
    decreases n,
{
    let d = crate::text::decimal(n);
    reveal_with_fuel(number_read, 2);
    if n >= 10 {
        decimal_reads_back(n / 10);
        let init = crate::text::decimal(n / 10);
        assert(d.drop_last() == init);
        assert(d[0] == init[0]);
        assert forall|i: int| 0 <= i < d.len() implies 48 <= (#[trigger] d[i]) as int <= 57 by {
            if i < init.len() {
                assert(d[i] == init[i]);
            }
        }
    } else {
        assert(d.drop_last() == Seq::<char>::empty());
    }
}

/// The decimal form of a number reads as that number, is made of digits, and has no
/// leading zero.
pub proof fn decimals_read_back(n: u64, r: String)
    requires
        call_ensures(decimal_of, (n,), r),
    ensures
        number_read(r@) == n,
        forall|i: int| 0 <= i < r@.len() ==> 48 <= (#[trigger] r@[i]) as int <= 57,
        r@.len() > 0,
        n > 0 ==> r@[0] as int != 48,
        n == 0 ==> r@.len() == 1,
{
    decimal_reads_back(n as nat);
}

} // verus!
