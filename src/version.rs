use vstd::prelude::*;
use crate::error::Error;
use std::cmp::Ordering;

verus! {

/// One dot-separated pre-release identifier.
pub enum PreId {
    Numeric(u64),
    AlphaNumeric(String),
}

/// Mathematical value of a pre-release identifier.
pub enum PreIdModel {
    Numeric(u64),
    AlphaNumeric(Seq<char>),
}

impl View for PreId {
    type V = PreIdModel;

    open spec fn view(&self) -> PreIdModel {
        match self {
            PreId::Numeric(n) => PreIdModel::Numeric(*n),
            PreId::AlphaNumeric(s) => PreIdModel::AlphaNumeric(s@),
        }
    }
}

/// A parsed semantic version; build metadata plays no part in precedence and is not kept.
pub struct SemVer {
    pub major: u64,
    pub minor: u64,
    pub patch: u64,
    pub pre: Vec<PreId>,
}

/// Mathematical value of a semantic version.
pub struct SemVerModel {
    pub major: u64,
    pub minor: u64,
    pub patch: u64,
    pub pre: Seq<PreIdModel>,
}

impl View for SemVer {
    type V = SemVerModel;

    open spec fn view(&self) -> SemVerModel {
        SemVerModel {
            major: self.major,
            minor: self.minor,
            patch: self.patch,
            pre: self.pre@.map_values(|p: PreId| p@),
        }
    }
}

/// What `semver::Version::parse` yields for a text, if it accepts it.
pub uninterp spec fn semver_of(s: Seq<char>) -> Option<SemVer>;

/// Number of `-` characters in a text.
pub open spec fn dash_count(s: Seq<char>) -> nat
    decreases s.len(),
{
    if s.len() == 0 {
        0
    } else {
        dash_count(s.drop_last()) + if s.last() == '-' {
            1nat
        } else {
            0nat
        }
    }
}

/// The semver parser joins `-`-separated parts of one identifier recursively and
/// panics beyond 256 of them; a text with at most 255 `-` never gets there.
pub open spec fn within_parser_bound(s: Seq<char>) -> bool {
    dash_count(s) <= 255
}

/// The text is a semantic version that the parser reads without failing.
pub open spec fn readable_version(s: Seq<char>) -> bool {
    within_parser_bound(s) && semver_of(s) is Some
}

/// Relies on `semver::Version::parse` (semver 0.11): its fields and pre-release
/// identifiers, which depend on the text alone. It panics on an identifier of
/// more than 256 `-`-joined parts, which the bound on `-` rules out.
#[verifier::external_body]
fn parse_semver(s: &str) -> (r: Option<SemVer>)
    requires
        within_parser_bound(s@),
    ensures
        r == semver_of(s@),
{
    semver::Version::parse(s).ok().map(|v| SemVer {
        major: v.major,
        minor: v.minor,
        patch: v.patch,
        pre: v.pre.into_iter().map(|i| match i {
            semver::Identifier::Numeric(n) => PreId::Numeric(n),
            semver::Identifier::AlphaNumeric(a) => PreId::AlphaNumeric(a),
        }).collect(),
    })
}

/// -1, 0 or 1 as `a` is below, equal to or above `b`.
pub open spec fn cmp_int(a: int, b: int) -> int {
    if a < b {
        -1
    } else if a > b {
        1
    } else {
        0
    }
}

/// Lexicographic order of characters by code point; a proper prefix comes first.
pub open spec fn cmp_chars(a: Seq<char>, b: Seq<char>) -> int
    decreases a.len(),
{
    if a.len() == 0 {
        if b.len() == 0 {
            0
        } else {
            -1
        }
    } else if b.len() == 0 {
        1
    } else if a[0] != b[0] {
        cmp_int(a[0] as int, b[0] as int)
    } else {
        cmp_chars(a.drop_first(), b.drop_first())
    }
}

/// Numeric identifiers come before alphanumeric ones.
pub open spec fn cmp_pre_id(a: PreIdModel, b: PreIdModel) -> int {
    match (a, b) {
        (PreIdModel::Numeric(x), PreIdModel::Numeric(y)) => cmp_int(x as int, y as int),
        (PreIdModel::Numeric(_), PreIdModel::AlphaNumeric(_)) => -1,
        (PreIdModel::AlphaNumeric(_), PreIdModel::Numeric(_)) => 1,
        (PreIdModel::AlphaNumeric(x), PreIdModel::AlphaNumeric(y)) => cmp_chars(x, y),
    }
}

/// Lexicographic order of identifier lists; a proper prefix comes first.
pub open spec fn cmp_pre_ids(a: Seq<PreIdModel>, b: Seq<PreIdModel>) -> int
    decreases a.len(),
{
    if a.len() == 0 {
        if b.len() == 0 {
            0
        } else {
            -1
        }
    } else if b.len() == 0 {
        1
    } else if cmp_pre_id(a[0], b[0]) != 0 {
        cmp_pre_id(a[0], b[0])
    } else {
        cmp_pre_ids(a.drop_first(), b.drop_first())
    }
}

/// Semantic-version precedence: major, minor, patch, then a pre-release
/// version below the release it precedes.
pub open spec fn cmp_versions(a: SemVerModel, b: SemVerModel) -> int {
    if a.major != b.major {
        cmp_int(a.major as int, b.major as int)
    } else if a.minor != b.minor {
        cmp_int(a.minor as int, b.minor as int)
    } else if a.patch != b.patch {
        cmp_int(a.patch as int, b.patch as int)
    } else if a.pre.len() == 0 && b.pre.len() == 0 {
        0
    } else if a.pre.len() == 0 {
        1
    } else if b.pre.len() == 0 {
        -1
    } else {
        cmp_pre_ids(a.pre, b.pre)
    }
}

pub open spec fn ordering_sign(o: Ordering) -> int {
    match o {
        Ordering::Less => -1,
        Ordering::Equal => 0,
        Ordering::Greater => 1,
    }
}

/// Whether `current` is an older version than `candidate`.
pub open spec fn is_older(current: Seq<char>, candidate: Seq<char>) -> bool {
    &&& readable_version(current)
    &&& readable_version(candidate)
    &&& cmp_versions(semver_of(current)->0@, semver_of(candidate)->0@) == -1
}

fn ordering_of(c: i8) -> (r: Ordering)
    requires
        -1 <= c <= 1,
    ensures
        ordering_sign(r) == c,
{
    if c < 0 {
        Ordering::Less
    } else if c > 0 {
        Ordering::Greater
    } else {
        Ordering::Equal
    }
}

fn cmp_u64(a: u64, b: u64) -> (r: i8)
    ensures
        r == cmp_int(a as int, b as int),
{
    if a < b {
        -1
    } else if a > b {
        1
    } else {
        0
    }
}

proof fn lemma_cmp_chars_step(a: Seq<char>, b: Seq<char>, i: int)
    requires
        0 <= i < a.len(),
        i < b.len(),
        a[i] == b[i],
    ensures
        cmp_chars(a.subrange(i, a.len() as int), b.subrange(i, b.len() as int))
            == cmp_chars(a.subrange(i + 1, a.len() as int), b.subrange(i + 1, b.len() as int)),
{
    assert(a.subrange(i, a.len() as int).drop_first() =~= a.subrange(i + 1, a.len() as int));
    assert(b.subrange(i, b.len() as int).drop_first() =~= b.subrange(i + 1, b.len() as int));
}

fn cmp_text(a: &String, b: &String) -> (r: i8)
    ensures
        r == cmp_chars(a@, b@),
{
    let la = a.as_str().unicode_len();
    let lb = b.as_str().unicode_len();
    let mut i: usize = 0;
    proof {
        assert(a@.subrange(0, a@.len() as int) =~= a@);
        assert(b@.subrange(0, b@.len() as int) =~= b@);
    }
    while i < la && i < lb
        invariant
            la == a@.len(),
            lb == b@.len(),
            i <= la,
            i <= lb,
            cmp_chars(a@, b@) == cmp_chars(
                a@.subrange(i as int, la as int),
                b@.subrange(i as int, lb as int),
            ),
        decreases la - i,
    {
        let ca = a.as_str().get_char(i);
        let cb = b.as_str().get_char(i);
        if ca != cb {
            proof {
                let sa = a@.subrange(i as int, la as int);
                let sb = b@.subrange(i as int, lb as int);
                assert(sa[0] == ca && sb[0] == cb);
            }
            if (ca as u32) < (cb as u32) {
                return -1;
            } else {
                return 1;
            }
        }
        proof {
            lemma_cmp_chars_step(a@, b@, i as int);
        }
        i = i + 1;
    }
    if i == la && i == lb {
        0
    } else if i == la {
        -1
    } else {
        1
    }
}

fn cmp_pre_id_exec(a: &PreId, b: &PreId) -> (r: i8)
    ensures
        r == cmp_pre_id(a@, b@),
{
    match (a, b) {
        (PreId::Numeric(x), PreId::Numeric(y)) => cmp_u64(*x, *y),
        (PreId::Numeric(_), PreId::AlphaNumeric(_)) => -1,
        (PreId::AlphaNumeric(_), PreId::Numeric(_)) => 1,
        (PreId::AlphaNumeric(x), PreId::AlphaNumeric(y)) => cmp_text(x, y),
    }
}

proof fn lemma_cmp_pre_ids_step(a: Seq<PreIdModel>, b: Seq<PreIdModel>, i: int)
    requires
        0 <= i < a.len(),
        i < b.len(),
        cmp_pre_id(a[i], b[i]) == 0,
    ensures
        cmp_pre_ids(a.subrange(i, a.len() as int), b.subrange(i, b.len() as int))
            == cmp_pre_ids(a.subrange(i + 1, a.len() as int), b.subrange(i + 1, b.len() as int)),
{
    assert(a.subrange(i, a.len() as int).drop_first() =~= a.subrange(i + 1, a.len() as int));
    assert(b.subrange(i, b.len() as int).drop_first() =~= b.subrange(i + 1, b.len() as int));
}

fn cmp_pre_ids_exec(a: &Vec<PreId>, b: &Vec<PreId>) -> (r: i8)
    ensures
        r == cmp_pre_ids(a@.map_values(|p: PreId| p@), b@.map_values(|p: PreId| p@)),
{
    let ghost ma = a@.map_values(|p: PreId| p@);
    let ghost mb = b@.map_values(|p: PreId| p@);
    let mut i: usize = 0;
    proof {
        assert(ma.subrange(0, ma.len() as int) =~= ma);
        assert(mb.subrange(0, mb.len() as int) =~= mb);
    }
    while i < a.len() && i < b.len()
        invariant
            ma == a@.map_values(|p: PreId| p@),
            mb == b@.map_values(|p: PreId| p@),
            i <= a.len(),
            i <= b.len(),
            cmp_pre_ids(ma, mb) == cmp_pre_ids(
                ma.subrange(i as int, ma.len() as int),
                mb.subrange(i as int, mb.len() as int),
            ),
        decreases a.len() - i,
    {
        let c = cmp_pre_id_exec(&a[i], &b[i]);
        proof {
            assert(ma[i as int] == a@[i as int]@);
            assert(mb[i as int] == b@[i as int]@);
        }
        if c != 0 {
            proof {
                let sa = ma.subrange(i as int, ma.len() as int);
                let sb = mb.subrange(i as int, mb.len() as int);
                assert(sa[0] == ma[i as int] && sb[0] == mb[i as int]);
            }
            return c;
        }
        proof {
            lemma_cmp_pre_ids_step(ma, mb, i as int);
        }
        i = i + 1;
    }
    if i == a.len() && i == b.len() {
        0
    } else if i == a.len() {
        -1
    } else {
        1
    }
}

/// Orders two parsed versions by semantic-version precedence.
pub fn compare_versions(a: &SemVer, b: &SemVer) -> (r: Ordering)
    ensures
        ordering_sign(r) == cmp_versions(a@, b@),
{
    if a.major != b.major {
        return ordering_of(cmp_u64(a.major, b.major));
    }
    if a.minor != b.minor {
        return ordering_of(cmp_u64(a.minor, b.minor));
    }
    if a.patch != b.patch {
        return ordering_of(cmp_u64(a.patch, b.patch));
    }
    if a.pre.len() == 0 && b.pre.len() == 0 {
        Ordering::Equal
    } else if a.pre.len() == 0 {
        Ordering::Greater
    } else if b.pre.len() == 0 {
        Ordering::Less
    } else {
        proof {
            lemma_cmp_pre_ids_range(a@.pre, b@.pre);
        }
        ordering_of(cmp_pre_ids_exec(&a.pre, &b.pre))
    }
}

/// Whether a text has at most 255 `-` characters.
fn dash_bound_holds(s: &str) -> (r: bool)
    ensures
        r == within_parser_bound(s@),
{
    let n = s.unicode_len();
    let mut count: usize = 0;
    let mut i: usize = 0;
    while i < n
        invariant
            n == s@.len(),
            i <= n,
            count <= i,
            count == dash_count(s@.subrange(0, i as int)),
        decreases n - i,
    {
        proof {
            assert(s@.subrange(0, i + 1).drop_last() =~= s@.subrange(0, i as int));
        }
        if s.get_char(i) == '-' {
            count = count + 1;
        }
        i = i + 1;
    }
    proof {
        assert(s@.subrange(0, n as int) =~= s@);
    }
    count <= 255
}

/// Orders two version strings; fails when either is not a semantic version.
pub fn compare(current: &str, candidate: &str) -> (r: Result<Ordering, Error>)
    ensures
        !readable_version(current@) || !readable_version(candidate@) ==> r matches Err(
            Error::InvalidVersion(_),
        ),
        readable_version(current@) && readable_version(candidate@) ==> (r matches Ok(o)
            && ordering_sign(o) == cmp_versions(semver_of(current@)->0@, semver_of(candidate@)->0@)),
{
    if !dash_bound_holds(current) || !dash_bound_holds(candidate) {
        return Err(Error::InvalidVersion("version has too many `-` separated parts".to_owned()));
    }
    let a = match parse_semver(current) {
        Some(v) => v,
        None => {
            return Err(Error::InvalidVersion("current version is not a semantic version".to_owned()));
        },
    };
    let b = match parse_semver(candidate) {
        Some(v) => v,
        None => {
            return Err(Error::InvalidVersion("announced version is not a semantic version".to_owned()));
        },
    };
    Ok(compare_versions(&a, &b))
}

/// An update is due when the announced version is newer than the running one;
/// a version that cannot be read means no update.
pub fn should_update(current: &str, candidate: &str) -> (r: bool)
    ensures
        r == is_older(current@, candidate@),
{
    match compare(current, candidate) {
        Ok(Ordering::Less) => true,
        _ => false,
    }
}

// ---- laws of the order ----

pub proof fn lemma_cmp_chars_range(a: Seq<char>, b: Seq<char>)
    ensures
        -1 <= cmp_chars(a, b) <= 1,
        cmp_chars(a, b) == -cmp_chars(b, a),
        cmp_chars(a, b) == 0 <==> a == b,
    decreases a.len(),
{
    if a.len() == 0 && b.len() == 0 {
        assert(a =~= b);
    }
    if a.len() > 0 && b.len() > 0 && a[0] == b[0] {
        lemma_cmp_chars_range(a.drop_first(), b.drop_first());
        if a.drop_first() == b.drop_first() {
            assert(a =~= seq![a[0]] + a.drop_first());
            assert(b =~= seq![b[0]] + b.drop_first());
        }
    }
    if a.len() > 0 && b.len() > 0 && a[0] != b[0] {
        assert((a[0] as int) != (b[0] as int));
    }
}

pub proof fn lemma_cmp_chars_trans(a: Seq<char>, b: Seq<char>, c: Seq<char>)
    requires
        cmp_chars(a, b) == -1,
        cmp_chars(b, c) == -1,
    ensures
        cmp_chars(a, c) == -1,
    decreases a.len(),
{
    if a.len() > 0 && b.len() > 0 && c.len() > 0 && a[0] == b[0] && b[0] == c[0] {
        lemma_cmp_chars_trans(a.drop_first(), b.drop_first(), c.drop_first());
    }
}

pub proof fn lemma_cmp_pre_id_laws(a: PreIdModel, b: PreIdModel, c: PreIdModel)
    ensures
        -1 <= cmp_pre_id(a, b) <= 1,
        cmp_pre_id(a, b) == -cmp_pre_id(b, a),
        cmp_pre_id(a, b) == 0 <==> a == b,
        cmp_pre_id(a, b) == -1 && cmp_pre_id(b, c) == -1 ==> cmp_pre_id(a, c) == -1,
{
    match (a, b) {
        (PreIdModel::AlphaNumeric(x), PreIdModel::AlphaNumeric(y)) => {
            lemma_cmp_chars_range(x, y);
        },
        _ => {},
    }
    match (a, b, c) {
        (
            PreIdModel::AlphaNumeric(x),
            PreIdModel::AlphaNumeric(y),
            PreIdModel::AlphaNumeric(z),
        ) => {
            if cmp_chars(x, y) == -1 && cmp_chars(y, z) == -1 {
                lemma_cmp_chars_trans(x, y, z);
            }
        },
        _ => {},
    }
}

pub proof fn lemma_cmp_pre_ids_range(a: Seq<PreIdModel>, b: Seq<PreIdModel>)
    ensures
        -1 <= cmp_pre_ids(a, b) <= 1,
        cmp_pre_ids(a, b) == -cmp_pre_ids(b, a),
        cmp_pre_ids(a, b) == 0 <==> a == b,
    decreases a.len(),
{
    if a.len() == 0 && b.len() == 0 {
        assert(a =~= b);
    }
    if a.len() > 0 && b.len() > 0 {
        lemma_cmp_pre_id_laws(a[0], b[0], b[0]);
        lemma_cmp_pre_ids_range(a.drop_first(), b.drop_first());
        if a[0] == b[0] && a.drop_first() == b.drop_first() {
            assert(a =~= seq![a[0]] + a.drop_first());
            assert(b =~= seq![b[0]] + b.drop_first());
        }
    }
}

pub proof fn lemma_cmp_pre_ids_trans(a: Seq<PreIdModel>, b: Seq<PreIdModel>, c: Seq<PreIdModel>)
    requires
        cmp_pre_ids(a, b) == -1,
        cmp_pre_ids(b, c) == -1,
    ensures
        cmp_pre_ids(a, c) == -1,
    decreases a.len(),
{
    if a.len() > 0 && b.len() > 0 && c.len() > 0 {
        lemma_cmp_pre_id_laws(a[0], b[0], c[0]);
        lemma_cmp_pre_id_laws(b[0], c[0], a[0]);
        lemma_cmp_pre_id_laws(a[0], c[0], b[0]);
        if cmp_pre_id(a[0], b[0]) == 0 && cmp_pre_id(b[0], c[0]) == 0 {
            lemma_cmp_pre_ids_trans(a.drop_first(), b.drop_first(), c.drop_first());
        }
    }
}

/// Version precedence is a strict total order: every pair compares as below,
/// equal or above; swapping the arguments flips the outcome; a version equals
/// only itself; and below is transitive.
pub proof fn lemma_version_order(a: SemVerModel, b: SemVerModel, c: SemVerModel)
    ensures
        -1 <= cmp_versions(a, b) <= 1,
        cmp_versions(a, a) == 0,
        cmp_versions(a, b) == -cmp_versions(b, a),
        cmp_versions(a, b) == 0 <==> a == b,
        cmp_versions(a, b) == -1 && cmp_versions(b, c) == -1 ==> cmp_versions(a, c) == -1,
{
    lemma_cmp_pre_ids_range(a.pre, b.pre);
    lemma_cmp_pre_ids_range(a.pre, a.pre);
    if cmp_versions(a, b) == -1 && cmp_versions(b, c) == -1 && a.major == b.major && b.major
        == c.major && a.minor == b.minor && b.minor == c.minor && a.patch == b.patch && b.patch
        == c.patch && a.pre.len() > 0 && b.pre.len() > 0 && c.pre.len() > 0 {
        lemma_cmp_pre_ids_trans(a.pre, b.pre, c.pre);
    }
}

/// Precedence follows the numeric fields: the first of major, minor and patch
/// that differs decides.
pub proof fn lemma_version_numeric_order(a: SemVerModel, b: SemVerModel)
    ensures
        a.major < b.major ==> cmp_versions(a, b) == -1,
        a.major == b.major && a.minor < b.minor ==> cmp_versions(a, b) == -1,
        a.major == b.major && a.minor == b.minor && a.patch < b.patch ==> cmp_versions(a, b)
            == -1,
{
}

} // verus!
