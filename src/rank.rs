//! Choosing the newest of several executables by the versions they report.
use vstd::prelude::*;
use vstd::string::StringExecFns;
use crate::extract::{comp_end, tier_at};
use crate::{ExecutableInfo, LatestVersionError};

verus! {

/// The value of a run of ASCII digits.
pub open spec fn decimal(d: Seq<char>) -> int
    decreases d.len(),
{
    if d.len() == 0 {
        0
    } else {
        decimal(d.drop_last()) * 10 + (d.last() as int - '0' as int)
    }
}

/// A number as semantic versioning writes it: ASCII digits, no leading zero,
/// and small enough for 64 bits.
pub open spec fn canonical_number(d: Seq<char>) -> bool {
    &&& d.len() > 0
    &&& forall|i: int| 0 <= i < d.len() ==> '0' <= #[trigger] d[i] && d[i] <= '9'
    &&& (d[0] == '0' ==> d.len() == 1)
    &&& decimal(d) <= u64::MAX
}

/// The triple that `s` denotes when it is exactly `MAJOR.MINOR.PATCH`.
pub open spec fn strict_triple(s: Seq<char>) -> Option<(int, int, int)> {
    let e1 = comp_end(s, 0, 1);
    let e2 = comp_end(s, 0, 2);
    let e3 = comp_end(s, 0, 3);
    let a = s.subrange(0, e1);
    let b = s.subrange(e1 + 1, e2);
    let c = s.subrange(e2 + 1, e3);
    if tier_at(s, 0, 3) && e3 == s.len() && canonical_number(a) && canonical_number(b)
        && canonical_number(c) {
        Some((decimal(a), decimal(b), decimal(c)))
    } else {
        None
    }
}

pub open spec fn is_strict(s: Seq<char>) -> bool {
    strict_triple(s) is Some
}

pub open spec fn triple_of(s: Seq<char>) -> (int, int, int) {
    strict_triple(s)->0
}

/// Precedence of triples: major, then minor, then patch.
pub open spec fn triple_gt(a: (int, int, int), b: (int, int, int)) -> bool {
    a.0 > b.0 || (a.0 == b.0 && (a.1 > b.1 || (a.1 == b.1 && a.2 > b.2)))
}

/// Whether the lenient comparison of version-compare holds `a` strictly
/// greater than `b`.
pub uninterp spec fn lenient_greater(a: Seq<char>, b: Seq<char>) -> bool;

/// Whether a candidate with version `cand` takes the lead from `leader`.
pub open spec fn replaces(cand: Seq<char>, leader: Seq<char>) -> bool {
    match strict_triple(cand) {
        Some(c) => match strict_triple(leader) {
            Some(l) => triple_gt(c, l),
            None => true,
        },
        None => lenient_greater(cand, leader),
    }
}

/// Index of the leader once the first `n` versions have been seen.
pub open spec fn leader_index(vs: Seq<Seq<char>>, n: int) -> int
    decreases n,
{
    if n <= 1 {
        0
    } else {
        let l = leader_index(vs, n - 1);
        if replaces(vs[n - 1], vs[l]) {
            n - 1
        } else {
            l
        }
    }
}

pub open spec fn versions_of(infos: Seq<ExecutableInfo>) -> Seq<Seq<char>> {
    infos.map_values(|e: ExecutableInfo| e.version@)
}

pub open spec fn all_strict(vs: Seq<Seq<char>>) -> bool {
    forall|i: int| 0 <= i < vs.len() ==> is_strict(#[trigger] vs[i])
}

proof fn lemma_strict_prefix(vs: Seq<Seq<char>>, n: int)
    requires
        1 <= n <= vs.len(),
        all_strict(vs),
    ensures
        0 <= leader_index(vs, n) < n,
        forall|j: int|
            0 <= j < n ==> !triple_gt(
                triple_of(#[trigger] vs[j]),
                triple_of(vs[leader_index(vs, n)]),
            ),
        forall|j: int|
            0 <= j < leader_index(vs, n) ==> triple_gt(
                triple_of(vs[leader_index(vs, n)]),
                triple_of(#[trigger] vs[j]),
            ),
    decreases n,
{
    if n > 1 {
        lemma_strict_prefix(vs, n - 1);
        let l = leader_index(vs, n - 1);
        assert(is_strict(vs[n - 1]) && is_strict(vs[l]));
    }
}

/// When every version parses strictly, the winner carries the greatest
/// triple, and it is the first candidate in input order that carries it.
pub proof fn lemma_strict_winner_is_first_greatest(vs: Seq<Seq<char>>)
    requires
        vs.len() > 0,
        all_strict(vs),
    ensures
        0 <= leader_index(vs, vs.len() as int) < vs.len(),
        forall|j: int|
            0 <= j < vs.len() ==> !triple_gt(
                triple_of(#[trigger] vs[j]),
                triple_of(vs[leader_index(vs, vs.len() as int)]),
            ),
        forall|j: int|
            0 <= j < leader_index(vs, vs.len() as int) ==> triple_gt(
                triple_of(vs[leader_index(vs, vs.len() as int)]),
                triple_of(#[trigger] vs[j]),
            ),
{
    lemma_strict_prefix(vs, vs.len() as int);
}

/// Reordering versions that all parse strictly leaves the winning triple as
/// it was: it is the greatest triple of the set.
pub proof fn lemma_order_independent(a: Seq<Seq<char>>, b: Seq<Seq<char>>)
    requires
        a.len() > 0,
        all_strict(a),
        a.to_multiset() == b.to_multiset(),
    ensures
        b.len() == a.len(),
        all_strict(b),
        triple_of(a[leader_index(a, a.len() as int)]) == triple_of(
            b[leader_index(b, b.len() as int)],
        ),
{
    a.to_multiset_ensures();
    b.to_multiset_ensures();
    assert(b.len() == a.len());
    assert forall|i: int| 0 <= i < b.len() implies is_strict(#[trigger] b[i]) by {
        assert(b.contains(b[i]));
        assert(b.to_multiset().count(b[i]) > 0);
        assert(a.contains(b[i]));
    }
    lemma_strict_winner_is_first_greatest(a);
    lemma_strict_winner_is_first_greatest(b);
    let wa = a[leader_index(a, a.len() as int)];
    let wb = b[leader_index(b, b.len() as int)];
    assert(a.contains(wa));
    assert(b.to_multiset().count(wa) > 0);
    assert(b.contains(wa));
    assert(b.contains(wb));
    assert(a.to_multiset().count(wb) > 0);
    assert(a.contains(wb));
    let ka = choose|k: int| 0 <= k < b.len() && b[k] == wa;
    let kb = choose|k: int| 0 <= k < a.len() && a[k] == wb;
    assert(!triple_gt(triple_of(b[ka]), triple_of(wb)));
    assert(!triple_gt(triple_of(a[kb]), triple_of(wa)));
}

/// A candidate whose strict triple equals the leader's never takes the lead.
pub proof fn lemma_tie_keeps_leader(cand: Seq<char>, leader: Seq<char>)
    requires
        is_strict(cand),
        strict_triple(cand) == strict_triple(leader),
    ensures
        !replaces(cand, leader),
{
}

/// A candidate that parses strictly takes the lead from one that does not,
/// whatever their numbers.
pub proof fn lemma_strict_beats_lenient(cand: Seq<char>, leader: Seq<char>)
    requires
        is_strict(cand),
        !is_strict(leader),
    ensures
        replaces(cand, leader),
{
}

proof fn lemma_strict_leader_prefix(vs: Seq<Seq<char>>, n: int, s: int)
    requires
        1 <= n <= vs.len(),
        0 <= s < n,
        is_strict(vs[s]),
        forall|i: int, j: int|
            0 <= i < j < vs.len() && is_strict(#[trigger] vs[i]) ==> is_strict(#[trigger] vs[j]),
    ensures
        0 <= leader_index(vs, n) < n,
        is_strict(vs[leader_index(vs, n)]),
    decreases n,
{
    if n > 1 {
        if s < n - 1 {
            lemma_strict_leader_prefix(vs, n - 1, s);
            assert(is_strict(vs[n - 1]));
        } else {
            lemma_leader_in_range(vs, n - 1);
        }
    }
}

proof fn lemma_leader_in_range(vs: Seq<Seq<char>>, n: int)
    requires
        1 <= n,
    ensures
        0 <= leader_index(vs, n) < n,
    decreases n,
{
    if n > 1 {
        lemma_leader_in_range(vs, n - 1);
    }
}

/// Where every version that fails to parse strictly comes before every one
/// that parses, and one does, the winner is a strictly parsed version.
pub proof fn lemma_strict_wins_over_earlier_lenient(vs: Seq<Seq<char>>, s: int)
    requires
        0 <= s < vs.len(),
        is_strict(vs[s]),
        forall|i: int, j: int|
            0 <= i < j < vs.len() && is_strict(#[trigger] vs[i]) ==> is_strict(#[trigger] vs[j]),
    ensures
        is_strict(vs[leader_index(vs, vs.len() as int)]),
{
    lemma_strict_leader_prefix(vs, vs.len() as int, s);
}

/// What semver's parser found in a version string.
pub struct SemverParts {
    pub major: u64,
    pub minor: u64,
    pub patch: u64,
    pub pre: String,
    pub build: String,
}

/// What semver's parser may return for `s`: a plain triple exactly when `s`
/// is one, with its numbers.
pub open spec fn semver_reading(s: Seq<char>, r: Option<SemverParts>) -> bool {
    &&& strict_triple(s) matches Some(t) ==> (r matches Some(p) && p.major == t.0 && p.minor
        == t.1 && p.patch == t.2 && p.pre@.len() == 0 && p.build@.len() == 0)
    &&& match r {
        Some(p) => p.pre@.len() == 0 && p.build@.len() == 0 ==> strict_triple(s) == Some(
            (p.major as int, p.minor as int, p.patch as int),
        ),
        None => true,
    }
}

/// Relies on semver::Version::parse: it accepts exactly `MAJOR.MINOR.PATCH`
/// (digits without leading zeros, each within 64 bits) followed by an
/// optional non-empty `-pre` and `+build` part, and nothing else.
#[verifier::external_body]
fn parse_semver(text: &str) -> (r: Option<SemverParts>)
    ensures
        semver_reading(text@, r),
{
    match semver::Version::parse(text) {
        Ok(v) => Some(SemverParts {
            major: v.major,
            minor: v.minor,
            patch: v.patch,
            pre: v.pre.as_str().to_string(),
            build: v.build.as_str().to_string(),
        }),
        Err(_) => None,
    }
}

/// Relies on version_compare::compare: whether it returns `Ok(Cmp::Gt)`, that
/// is `a` strictly greater than `b`; a side that it cannot read, or any other
/// outcome, gives `false`.
#[verifier::external_body]
fn lenient_gt(a: &str, b: &str) -> (r: bool)
    ensures
        r == lenient_greater(a@, b@),
{
    matches!(version_compare::compare(a, b), Ok(version_compare::Cmp::Gt))
}

/// The strict reading of a version: three plain numbers, nothing more.
pub fn strict_version(text: &str) -> (r: Option<(u64, u64, u64)>)
    ensures
        match r {
            Some(t) => strict_triple(text@) == Some((t.0 as int, t.1 as int, t.2 as int)),
            None => strict_triple(text@) is None,
        },
{
    match parse_semver(text) {
        Some(p) => {
            if p.pre.as_str().is_empty() && p.build.as_str().is_empty() {
                Some((p.major, p.minor, p.patch))
            } else {
                None
            }
        },
        None => None,
    }
}

fn newer(cand: &String, leader: &String) -> (r: bool)
    ensures
        r == replaces(cand@, leader@),
{
    match strict_version(cand.as_str()) {
        Some(c) => match strict_version(leader.as_str()) {
            Some(l) => c.0 > l.0 || (c.0 == l.0 && (c.1 > l.1 || (c.1 == l.1 && c.2 > l.2))),
            None => true,
        },
        None => lenient_gt(cand.as_str(), leader.as_str()),
    }
}

/// Picks the newest executable: the first one seeds the lead, and each later
/// one takes it when it `replaces` the current leader. An empty list is an
/// extraction error.
pub fn find_latest_version(info_list: Vec<ExecutableInfo>) -> (r: Result<
    ExecutableInfo,
    LatestVersionError,
>)
    ensures
        info_list@.len() == 0 <==> r is Err,
        r matches Err(e) ==> (e matches LatestVersionError::VersionExtractionError(d) && d@
            == "No valid versions found"@),
        r matches Ok(w) ==> w == info_list@[leader_index(
            versions_of(info_list@),
            info_list@.len() as int,
        )],
{
    if info_list.len() == 0 {
        return Err(
            LatestVersionError::VersionExtractionError(String::from_str("No valid versions found")),
        );
    }
    let ghost vs = versions_of(info_list@);
    let mut best: usize = 0;
    let mut i: usize = 1;
    while i < info_list.len()
        invariant
            1 <= i <= info_list.len(),
            vs == versions_of(info_list@),
            best == leader_index(vs, i as int),
            best < i,
        decreases info_list.len() - i,
    {
        if newer(&info_list[i].version, &info_list[best].version) {
            best = i;
        }
        i = i + 1;
    }
    let mut list = info_list;
    Ok(list.remove(best))
}

} // verus!
