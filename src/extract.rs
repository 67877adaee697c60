//! Reading a canonical `MAJOR.MINOR.PATCH` version out of free-form text.
use vstd::prelude::*;
use vstd::string::StrSliceExecFns;
use vstd::string::StringExecFns;

verus! {

/// Whether the regex class `\d` (a Unicode decimal digit) matches `c`.
pub uninterp spec fn regex_digit(c: char) -> bool;

/// A decimal digit: `0` to `9` within ASCII, and beyond it any character
/// of the Unicode category Nd, as the regex class `\d` has it.
pub open spec fn is_digit(c: char) -> bool {
    if (c as u32) < 128 {
        '0' <= c && c <= '9'
    } else {
        regex_digit(c)
    }
}

/// One past the last position of the run of ASCII digits that starts at `i`.
pub open spec fn run_end(s: Seq<char>, i: int) -> int
    decreases s.len() - i,
{
    if 0 <= i < s.len() && is_digit(s[i]) {
        run_end(s, i + 1)
    } else {
        i
    }
}

/// A `.` at `e` followed by a digit.
pub open spec fn dot_then_digit(s: Seq<char>, e: int) -> bool {
    0 <= e && e + 1 < s.len() && s[e] == '.' && is_digit(s[e + 1])
}

/// `k` dot-separated digit runs start at `i`.
pub open spec fn tier_at(s: Seq<char>, i: int, k: nat) -> bool
    decreases k,
{
    if k <= 1 {
        0 <= i < s.len() && is_digit(s[i])
    } else {
        tier_at(s, i, (k - 1) as nat) && dot_then_digit(s, comp_end(s, i, (k - 1) as nat))
    }
}

/// Where the `k`-th digit run starting at `i` ends.
pub open spec fn comp_end(s: Seq<char>, i: int, k: nat) -> int
    decreases k,
{
    if k <= 1 {
        run_end(s, i)
    } else {
        run_end(s, comp_end(s, i, (k - 1) as nat) + 1)
    }
}

/// The leftmost position at or after `i` where `k` components start.
pub open spec fn first_match(s: Seq<char>, k: nat, i: int) -> Option<int>
    decreases s.len() - i,
{
    if i < 0 || i >= s.len() {
        None
    } else if tier_at(s, i, k) {
        Some(i)
    } else {
        first_match(s, k, i + 1)
    }
}

/// What is appended to a match of `k` components to make three of them.
pub open spec fn zero_fill(k: nat) -> Seq<char> {
    if k >= 3 {
        Seq::empty()
    } else if k == 2 {
        seq!['.', '0']
    } else {
        seq!['.', '0', '.', '0']
    }
}

/// The leftmost match of `k` components, completed to three.
pub open spec fn tier_result(s: Seq<char>, k: nat) -> Option<Seq<char>> {
    match first_match(s, k, 0) {
        Some(i) => Some(s.subrange(i, comp_end(s, i, k)) + zero_fill(k)),
        None => None,
    }
}

/// The version read from `s`: three components if any, else two, else one.
pub open spec fn extracted(s: Seq<char>) -> Option<Seq<char>> {
    if tier_result(s, 3) is Some {
        tier_result(s, 3)
    } else if tier_result(s, 2) is Some {
        tier_result(s, 2)
    } else {
        tier_result(s, 1)
    }
}

proof fn lemma_run_end_bounds(s: Seq<char>, i: int)
    requires
        0 <= i <= s.len(),
    ensures
        i <= run_end(s, i) <= s.len(),
    decreases s.len() - i,
{
    if i < s.len() && is_digit(s[i]) {
        lemma_run_end_bounds(s, i + 1);
    }
}

proof fn lemma_comp_end_bounds(s: Seq<char>, i: int, k: nat)
    requires
        tier_at(s, i, k),
    ensures
        i < comp_end(s, i, k) <= s.len(),
    decreases k,
{
    if k <= 1 {
        lemma_run_end_bounds(s, i + 1);
    } else {
        lemma_comp_end_bounds(s, i, (k - 1) as nat);
        let e = comp_end(s, i, (k - 1) as nat);
        lemma_run_end_bounds(s, e + 2);
    }
}

proof fn lemma_first_match_reaches(s: Seq<char>, k: nat, start: int, i: int)
    requires
        0 <= start <= i,
        tier_at(s, i, k),
    ensures
        first_match(s, k, start) matches Some(j) && start <= j <= i && tier_at(s, j, k),
    decreases i - start,
{
    lemma_tier_starts_with_digit(s, i, k);
    if !tier_at(s, start, k) {
        lemma_first_match_reaches(s, k, start + 1, i);
    }
}

proof fn lemma_tier_starts_with_digit(s: Seq<char>, i: int, k: nat)
    requires
        tier_at(s, i, k),
    ensures
        0 <= i < s.len() && is_digit(s[i]),
    decreases k,
{
    if k > 1 {
        lemma_tier_starts_with_digit(s, i, (k - 1) as nat);
    }
}

proof fn lemma_no_digit_no_match(s: Seq<char>, k: nat, start: int)
    requires
        forall|j: int| 0 <= j < s.len() ==> !is_digit(#[trigger] s[j]),
    ensures
        first_match(s, k, start) is None,
    decreases s.len() - start,
{
    if 0 <= start < s.len() {
        if tier_at(s, start, k) {
            lemma_tier_starts_with_digit(s, start, k);
        }
        lemma_no_digit_no_match(s, k, start + 1);
    }
}

/// Text that holds three dot-separated numbers anywhere yields the leftmost
/// such triple, character for character, whatever other numbers stand before
/// or after it.
pub proof fn lemma_triple_taken_verbatim(s: Seq<char>, i: int)
    requires
        tier_at(s, i, 3),
    ensures
        first_match(s, 3, 0) matches Some(j) && j <= i && tier_at(s, j, 3) && extracted(s)
            == Some(s.subrange(j, comp_end(s, j, 3))),
{
    lemma_tier_starts_with_digit(s, i, 3);
    lemma_first_match_reaches(s, 3, 0, i);
    assert(zero_fill(3) =~= Seq::<char>::empty());
    let j = first_match(s, 3, 0)->0;
    assert(s.subrange(j, comp_end(s, j, 3)) + zero_fill(3) =~= s.subrange(j, comp_end(s, j, 3)));
}

/// Where the text holds both a triple and a pair of dot-separated numbers,
/// the triple is read and the pair is passed over.
pub proof fn lemma_triple_beats_pair(s: Seq<char>, i: int, p: int)
    requires
        tier_at(s, i, 3),
        tier_at(s, p, 2),
    ensures
        extracted(s) == tier_result(s, 3),
        tier_result(s, 3) matches Some(v) && v == s.subrange(
            first_match(s, 3, 0)->0,
            comp_end(s, first_match(s, 3, 0)->0, 3),
        ),
{
    lemma_triple_taken_verbatim(s, i);
}

/// Text without a digit yields no version.
pub proof fn lemma_no_digit_no_version(s: Seq<char>)
    requires
        forall|j: int| 0 <= j < s.len() ==> !is_digit(#[trigger] s[j]),
    ensures
        extracted(s) is None,
{
    lemma_no_digit_no_match(s, 3, 0);
    lemma_no_digit_no_match(s, 2, 0);
    lemma_no_digit_no_match(s, 1, 0);
}

/// Relies on regex: whether the pattern `^\d$` matches the character `c`
/// on its own.
#[verifier::external_body]
fn regex_is_digit(c: char) -> (r: bool)
    ensures
        r == regex_digit(c),
{
    regex::Regex::new(r"^\d$").unwrap().is_match(c.encode_utf8(&mut [0u8; 4]))
}

fn char_is_digit(c: char) -> (r: bool)
    ensures
        r == is_digit(c),
{
    if (c as u32) < 128 {
        '0' <= c && c <= '9'
    } else {
        regex_is_digit(c)
    }
}

fn digits_end(chars: &Vec<char>, start: usize) -> (r: usize)
    requires
        start <= chars.len(),
    ensures
        r == run_end(chars@, start as int),
        start <= r <= chars.len(),
{
    let mut i: usize = start;
    while i < chars.len() && char_is_digit(chars[i])
        invariant
            start <= i <= chars.len(),
            run_end(chars@, i as int) == run_end(chars@, start as int),
        decreases chars.len() - i,
    {
        i = i + 1;
    }
    i
}

/// The end of `k` components starting at `i`, if they are there.
fn match_end(chars: &Vec<char>, i: usize, k: usize) -> (r: Option<usize>)
    requires
        1 <= k <= 3,
        i <= chars.len(),
    ensures
        match r {
            Some(e) => tier_at(chars@, i as int, k as nat) && e == comp_end(
                chars@,
                i as int,
                k as nat,
            ),
            None => !tier_at(chars@, i as int, k as nat),
        },
    decreases k,
{
    if k == 1 {
        if i < chars.len() && char_is_digit(chars[i]) {
            Some(digits_end(chars, i))
        } else {
            None
        }
    } else {
        match match_end(chars, i, k - 1) {
            None => None,
            Some(e) => {
                proof {
                    lemma_comp_end_bounds(chars@, i as int, (k - 1) as nat);
                }
                if e < chars.len() && e + 1 < chars.len() && chars[e] == '.' && char_is_digit(chars[e + 1]) {
                    Some(digits_end(chars, e + 1))
                } else {
                    None
                }
            },
        }
    }
}

/// The leftmost match of `k` components, as start and end.
fn find_first(chars: &Vec<char>, k: usize) -> (r: Option<(usize, usize)>)
    requires
        1 <= k <= 3,
    ensures
        match r {
            Some((i, e)) => first_match(chars@, k as nat, 0) == Some(i as int) && e == comp_end(
                chars@,
                i as int,
                k as nat,
            ) && i < e <= chars.len(),
            None => first_match(chars@, k as nat, 0) is None,
        },
{
    let mut i: usize = 0;
    while i < chars.len()
        invariant
            i <= chars.len(),
            first_match(chars@, k as nat, 0) == first_match(chars@, k as nat, i as int),
            1 <= k <= 3,
        decreases chars.len() - i,
    {
        match match_end(chars, i, k) {
            Some(e) => {
                proof {
                    lemma_comp_end_bounds(chars@, i as int, k as nat);
                }
                return Some((i, e));
            },
            None => {},
        }
        i = i + 1;
    }
    None
}

/// Reads the version that a block of command output reports.
///
/// The leftmost `MAJOR.MINOR.PATCH` is taken as it stands; failing that the
/// leftmost `MAJOR.MINOR` gets `.0`; failing that the leftmost number gets
/// `.0.0`. Text without a digit gives `None`.
pub fn extract_version(output: &str) -> (r: Option<String>)
    ensures
        match r {
            Some(v) => extracted(output@) == Some(v@),
            None => extracted(output@) is None,
        },
{
    let n = output.unicode_len();
    let mut chars: Vec<char> = Vec::new();
    let mut j: usize = 0;
    while j < n
        invariant
            n == output@.len(),
            j <= n,
            chars@ == output@.subrange(0, j as int),
        decreases n - j,
    {
        chars.push(output.get_char(j));
        j = j + 1;
    }
    assert(chars@ == output@);
    if let Some((i, e)) = find_first(&chars, 3) {
        return Some(String::from_str(output.substring_char(i, e)));
    }
    if let Some((i, e)) = find_first(&chars, 2) {
        let mut v = String::from_str(output.substring_char(i, e));
        let fill = ".0";
        proof {
            reveal_strlit(".0");
        }
        v.append(fill);
        assert(v@ == output@.subrange(i as int, e as int) + zero_fill(2));
        return Some(v);
    }
    if let Some((i, e)) = find_first(&chars, 1) {
        let mut v = String::from_str(output.substring_char(i, e));
        let fill = ".0.0";
        proof {
            reveal_strlit(".0.0");
        }
        v.append(fill);
        assert(v@ == output@.subrange(i as int, e as int) + zero_fill(1));
        return Some(v);
    }
    None
}

} // verus!
