//! Update checking: semantic-version ordering and the cached check.
//!
//! Version strings are parsed by the `semver` crate through one trusted
//! call; the ordering of the parsed parts — numeric triple first, then
//! pre-release identifiers, then build identifiers, exactly as that
//! crate's derived ordering works — is implemented and proved here.
//! Fetching the latest release and reading or writing the cache file are
//! the surrounding binary's work; it hands the cached record in as a
//! value.

use vstd::prelude::*;

use vstd::utf8::encode_utf8;

use crate::config::{config_dir, str_ends_with};
use crate::errors::{DaemonError, ErrorKind};

verus! {

/// An ASCII dot.
pub const DOT: u8 = 46;

/// ASCII '0'.
pub const ZERO: u8 = 48;

/// ASCII '9'.
pub const NINE: u8 = 57;

/// How long a cached check stays fresh, in milliseconds: one day.
pub const CACHE_TTL_MS: u64 = 86400000;

/// Outcome of a comparison.
#[derive(Clone, Copy, PartialEq, Eq, Structural, Debug)]
pub enum Rel {
    Lt,
    Eq,
    Gt,
}

/// Bytewise lexicographic order; a proper prefix comes first.
pub open spec fn lex_bytes(a: Seq<u8>, b: Seq<u8>) -> Rel
    decreases a.len(),
{
    if a.len() == 0 && b.len() == 0 {
        Rel::Eq
    } else if a.len() == 0 {
        Rel::Lt
    } else if b.len() == 0 {
        Rel::Gt
    } else if a.first() < b.first() {
        Rel::Lt
    } else if a.first() > b.first() {
        Rel::Gt
    } else {
        lex_bytes(a.drop_first(), b.drop_first())
    }
}

/// Every byte is a decimal digit.
pub open spec fn is_numeric(x: Seq<u8>) -> bool {
    forall|i: int| 0 <= i < x.len() ==> ZERO <= #[trigger] x[i] <= NINE
}

/// The bytes with leading zeros removed.
pub open spec fn trim_zeros(x: Seq<u8>) -> Seq<u8>
    decreases x.len(),
{
    if x.len() > 0 && x.first() == ZERO {
        trim_zeros(x.drop_first())
    } else {
        x
    }
}

/// Order of two pre-release identifiers: numeric identifiers compare
/// numerically (equal length then lexically, valid because they carry no
/// leading zeros) and come before alphanumeric ones, which compare in
/// ASCII order.
pub open spec fn pre_ident_cmp(a: Seq<u8>, b: Seq<u8>) -> Rel {
    if is_numeric(a) && is_numeric(b) {
        if a.len() < b.len() {
            Rel::Lt
        } else if a.len() > b.len() {
            Rel::Gt
        } else {
            lex_bytes(a, b)
        }
    } else if is_numeric(a) {
        Rel::Lt
    } else if is_numeric(b) {
        Rel::Gt
    } else {
        lex_bytes(a, b)
    }
}

/// Order of two build identifiers: numeric identifiers may carry leading
/// zeros, so they compare by their trimmed digits first and by raw
/// length as the tiebreak; numeric comes before alphanumeric; the rest
/// compare in ASCII order.
pub open spec fn build_ident_cmp(a: Seq<u8>, b: Seq<u8>) -> Rel {
    if is_numeric(a) && is_numeric(b) {
        let ta = trim_zeros(a);
        let tb = trim_zeros(b);
        if ta.len() < tb.len() {
            Rel::Lt
        } else if ta.len() > tb.len() {
            Rel::Gt
        } else if !(lex_bytes(ta, tb) is Eq) {
            lex_bytes(ta, tb)
        } else if a.len() < b.len() {
            Rel::Lt
        } else if a.len() > b.len() {
            Rel::Gt
        } else {
            Rel::Eq
        }
    } else if is_numeric(a) {
        Rel::Lt
    } else if is_numeric(b) {
        Rel::Gt
    } else {
        lex_bytes(a, b)
    }
}

/// Index of the first dot at or after `i`, or the length when none.
pub open spec fn first_dot(x: Seq<u8>, i: int) -> int
    decreases x.len() - i when 0 <= i <= x.len()
{
    if i >= x.len() {
        i
    } else if x[i] == DOT {
        i
    } else {
        first_dot(x, i + 1)
    }
}

/// The dot-separated identifiers of a pre-release or build string.
pub open spec fn split_idents(x: Seq<u8>) -> Seq<Seq<u8>>
    decreases x.len(),
{
    let d = first_dot(x, 0);
    if 0 <= d && d < x.len() {
        seq![x.subrange(0, d)] + split_idents(x.skip(d + 1))
    } else {
        seq![x]
    }
}

/// Lexicographic order of identifier lists; a shorter list that matches a
/// prefix of a longer one comes first.
pub open spec fn ident_list_cmp(a: Seq<Seq<u8>>, b: Seq<Seq<u8>>, build: bool) -> Rel
    decreases a.len(),
{
    if a.len() == 0 && b.len() == 0 {
        Rel::Eq
    } else if a.len() == 0 {
        Rel::Lt
    } else if b.len() == 0 {
        Rel::Gt
    } else {
        let c = if build {
            build_ident_cmp(a.first(), b.first())
        } else {
            pre_ident_cmp(a.first(), b.first())
        };
        if !(c is Eq) {
            c
        } else {
            ident_list_cmp(a.drop_first(), b.drop_first(), build)
        }
    }
}

/// Order of two pre-release strings: a release (empty pre-release)
/// compares greater than any pre-release; otherwise the identifiers
/// decide.
pub open spec fn pre_cmp(a: Seq<u8>, b: Seq<u8>) -> Rel {
    if a.len() == 0 && b.len() == 0 {
        Rel::Eq
    } else if a.len() == 0 {
        Rel::Gt
    } else if b.len() == 0 {
        Rel::Lt
    } else {
        ident_list_cmp(split_idents(a), split_idents(b), false)
    }
}

/// Order of two build-metadata strings.
pub open spec fn build_cmp(a: Seq<u8>, b: Seq<u8>) -> Rel {
    if a.len() == 0 && b.len() == 0 {
        Rel::Eq
    } else {
        ident_list_cmp(split_idents(a), split_idents(b), true)
    }
}

/// Mathematical view of [`VersionParts`].
#[verifier::ext_equal]
pub ghost struct VersionPartsView {
    pub major: u64,
    pub minor: u64,
    pub patch: u64,
    pub pre: Seq<u8>,
    pub build: Seq<u8>,
}

/// The parts of a parsed semantic version: the numeric triple and the raw
/// pre-release and build identifier bytes (ASCII by the version grammar).
#[derive(Debug)]
pub struct VersionParts {
    pub major: u64,
    pub minor: u64,
    pub patch: u64,
    pub pre: Vec<u8>,
    pub build: Vec<u8>,
}

impl View for VersionParts {
    type V = VersionPartsView;

    open spec fn view(&self) -> VersionPartsView {
        VersionPartsView {
            major: self.major,
            minor: self.minor,
            patch: self.patch,
            pre: self.pre@,
            build: self.build@,
        }
    }
}

/// Total order of two versions: the numeric triple first, then the
/// pre-release, then the build metadata.
pub open spec fn version_cmp(a: VersionPartsView, b: VersionPartsView) -> Rel {
    if a.major < b.major {
        Rel::Lt
    } else if a.major > b.major {
        Rel::Gt
    } else if a.minor < b.minor {
        Rel::Lt
    } else if a.minor > b.minor {
        Rel::Gt
    } else if a.patch < b.patch {
        Rel::Lt
    } else if a.patch > b.patch {
        Rel::Gt
    } else if !(pre_cmp(a.pre, b.pre) is Eq) {
        pre_cmp(a.pre, b.pre)
    } else {
        build_cmp(a.build, b.build)
    }
}

} // verus!

verus! {

/// Compare two byte strings lexicographically.
fn lex_cmp(a: &Vec<u8>, b: &Vec<u8>) -> (r: Rel)
    ensures
        r == lex_bytes(a@, b@),
{
    let mut i: usize = 0;
    proof {
        assert(a@.skip(0) =~= a@);
        assert(b@.skip(0) =~= b@);
    }
    while i < a.len() && i < b.len()
        invariant
            i <= a@.len(),
            i <= b@.len(),
            lex_bytes(a@, b@) == lex_bytes(a@.skip(i as int), b@.skip(i as int)),
        decreases a@.len() - i,
    {
        proof {
            assert(a@.skip(i as int).first() == a@[i as int]);
            assert(b@.skip(i as int).first() == b@[i as int]);
            assert(a@.skip(i as int).drop_first() =~= a@.skip(i + 1));
            assert(b@.skip(i as int).drop_first() =~= b@.skip(i + 1));
        }
        if a[i] < b[i] {
            return Rel::Lt;
        }
        if a[i] > b[i] {
            return Rel::Gt;
        }
        i = i + 1;
    }
    proof {
        assert(a@.skip(i as int).len() == a@.len() - i);
        assert(b@.skip(i as int).len() == b@.len() - i);
    }
    if a.len() == b.len() {
        Rel::Eq
    } else if a.len() < b.len() {
        Rel::Lt
    } else {
        Rel::Gt
    }
}

/// Whether every byte is a decimal digit.
fn numeric_bytes(x: &Vec<u8>) -> (r: bool)
    ensures
        r == is_numeric(x@),
{
    let mut i: usize = 0;
    while i < x.len()
        invariant
            i <= x@.len(),
            forall|k: int| 0 <= k < i ==> ZERO <= #[trigger] x@[k] <= NINE,
        decreases x@.len() - i,
    {
        if x[i] < ZERO || x[i] > NINE {
            return false;
        }
        i = i + 1;
    }
    true
}

/// The bytes with leading zeros removed.
fn trim_zeros_exec(x: &Vec<u8>) -> (r: Vec<u8>)
    ensures
        r@ == trim_zeros(x@),
{
    let mut i: usize = 0;
    proof {
        assert(x@.skip(0) =~= x@);
    }
    while i < x.len() && x[i] == ZERO
        invariant
            i <= x@.len(),
            trim_zeros(x@) == trim_zeros(x@.skip(i as int)),
        decreases x@.len() - i,
    {
        proof {
            assert(x@.skip(i as int).first() == x@[i as int]);
            assert(x@.skip(i as int).drop_first() =~= x@.skip(i + 1));
        }
        i = i + 1;
    }
    proof {
        assert(x@.skip(i as int).len() == x@.len() - i);
        if i < x@.len() {
            assert(x@.skip(i as int).first() == x@[i as int]);
        }
        assert(trim_zeros(x@.skip(i as int)) == x@.skip(i as int));
    }
    let sl = vstd::slice::slice_subrange(x.as_slice(), i, x.len());
    let r = vstd::slice::slice_to_vec(sl);
    proof {
        assert(r@ =~= x@.skip(i as int));
    }
    r
}

/// Compare two pre-release identifiers.
fn pre_ident_cmp_exec(a: &Vec<u8>, b: &Vec<u8>) -> (r: Rel)
    ensures
        r == pre_ident_cmp(a@, b@),
{
    let na = numeric_bytes(a);
    let nb = numeric_bytes(b);
    if na && nb {
        if a.len() < b.len() {
            Rel::Lt
        } else if a.len() > b.len() {
            Rel::Gt
        } else {
            lex_cmp(a, b)
        }
    } else if na {
        Rel::Lt
    } else if nb {
        Rel::Gt
    } else {
        lex_cmp(a, b)
    }
}

/// Compare two build identifiers.
fn build_ident_cmp_exec(a: &Vec<u8>, b: &Vec<u8>) -> (r: Rel)
    ensures
        r == build_ident_cmp(a@, b@),
{
    let na = numeric_bytes(a);
    let nb = numeric_bytes(b);
    if na && nb {
        let ta = trim_zeros_exec(a);
        let tb = trim_zeros_exec(b);
        if ta.len() < tb.len() {
            Rel::Lt
        } else if ta.len() > tb.len() {
            Rel::Gt
        } else {
            let l = lex_cmp(&ta, &tb);
            if !matches!(l, Rel::Eq) {
                l
            } else if a.len() < b.len() {
                Rel::Lt
            } else if a.len() > b.len() {
                Rel::Gt
            } else {
                Rel::Eq
            }
        }
    } else if na {
        Rel::Lt
    } else if nb {
        Rel::Gt
    } else {
        lex_cmp(a, b)
    }
}

/// Split a pre-release or build string into its dot-separated
/// identifiers.
fn split_idents_exec(x: &Vec<u8>) -> (r: Vec<Vec<u8>>)
    ensures
        r.deep_view() == split_idents(x@),
{
    let mut out: Vec<Vec<u8>> = Vec::new();
    let mut pos: usize = 0;
    proof {
        assert(x@.skip(0) =~= x@);
        assert(out.deep_view() + split_idents(x@) =~= split_idents(x@));
    }
    loop
        invariant
            pos <= x@.len(),
            split_idents(x@) == out.deep_view() + split_idents(x@.skip(pos as int)),
        decreases x@.len() - pos,
    {
        let ghost t = x@.skip(pos as int);
        // Find the next dot.
        let mut j: usize = pos;
        while j < x.len() && x[j] != DOT
            invariant
                pos <= j <= x@.len(),
                t == x@.skip(pos as int),
                first_dot(t, 0) == first_dot(t, j - pos),
            decreases x@.len() - j,
        {
            proof {
                assert(t[j - pos] == x@[j as int]);
            }
            j = j + 1;
        }
        let ghost prev = out.deep_view();
        let sl = vstd::slice::slice_subrange(x.as_slice(), pos, j);
        let ident = vstd::slice::slice_to_vec(sl);
        let ghost iv = ident.deep_view();
        proof {
            assert(iv =~= ident@);
        }
        out.push(ident);
        proof {
            assert(out.deep_view() =~= prev.push(iv));
        }
        if j < x.len() {
            proof {
                assert(t[j - pos] == x@[j as int]);
                assert(first_dot(t, 0) == j - pos);
                assert(iv =~= t.subrange(0, j - pos));
                assert(t.skip(j - pos + 1) =~= x@.skip(j + 1));
                assert(split_idents(t) =~= seq![iv] + split_idents(t.skip(j - pos + 1)));
                assert(prev.push(iv) + split_idents(x@.skip(j + 1)) =~= prev + (seq![iv]
                    + split_idents(t.skip(j - pos + 1))));
            }
            pos = j + 1;
        } else {
            proof {
                assert(first_dot(t, 0) == first_dot(t, j - pos));
                assert(first_dot(t, j - pos) == t.len());
                assert(iv =~= t);
                assert(split_idents(t) =~= seq![iv]);
                assert(out.deep_view() =~= prev + seq![iv]);
                assert(split_idents(x@) =~= out.deep_view());
            }
            return out;
        }
    }
}

/// Compare two identifier lists.
fn ident_list_cmp_exec(a: &Vec<Vec<u8>>, b: &Vec<Vec<u8>>, build: bool) -> (r: Rel)
    ensures
        r == ident_list_cmp(a.deep_view(), b.deep_view(), build),
{
    let ghost av = a.deep_view();
    let ghost bv = b.deep_view();
    let mut i: usize = 0;
    proof {
        assert(av.skip(0) =~= av);
        assert(bv.skip(0) =~= bv);
    }
    while i < a.len() && i < b.len()
        invariant
            i <= av.len(),
            i <= bv.len(),
            av == a.deep_view(),
            bv == b.deep_view(),
            av.len() == a@.len(),
            bv.len() == b@.len(),
            ident_list_cmp(av, bv, build) == ident_list_cmp(
                av.skip(i as int),
                bv.skip(i as int),
                build,
            ),
        decreases av.len() - i,
    {
        proof {
            assert(av.skip(i as int).first() == av[i as int]);
            assert(bv.skip(i as int).first() == bv[i as int]);
            assert(av.skip(i as int).drop_first() =~= av.skip(i + 1));
            assert(bv.skip(i as int).drop_first() =~= bv.skip(i + 1));
        }
        let c = if build {
            build_ident_cmp_exec(&a[i], &b[i])
        } else {
            pre_ident_cmp_exec(&a[i], &b[i])
        };
        proof {
            assert(av[i as int] =~= a@[i as int]@);
            assert(bv[i as int] =~= b@[i as int]@);
        }
        if !matches!(c, Rel::Eq) {
            return c;
        }
        i = i + 1;
    }
    proof {
        assert(av.skip(i as int).len() == av.len() - i);
        assert(bv.skip(i as int).len() == bv.len() - i);
    }
    if a.len() == b.len() {
        Rel::Eq
    } else if a.len() < b.len() {
        Rel::Lt
    } else {
        Rel::Gt
    }
}

/// Compare two versions by their parts.
pub fn version_cmp_exec(a: &VersionParts, b: &VersionParts) -> (r: Rel)
    ensures
        r == version_cmp(a@, b@),
{
    if a.major < b.major {
        return Rel::Lt;
    }
    if a.major > b.major {
        return Rel::Gt;
    }
    if a.minor < b.minor {
        return Rel::Lt;
    }
    if a.minor > b.minor {
        return Rel::Gt;
    }
    if a.patch < b.patch {
        return Rel::Lt;
    }
    if a.patch > b.patch {
        return Rel::Gt;
    }
    let pc = if a.pre.len() == 0 && b.pre.len() == 0 {
        Rel::Eq
    } else if a.pre.len() == 0 {
        Rel::Gt
    } else if b.pre.len() == 0 {
        Rel::Lt
    } else {
        let sa = split_idents_exec(&a.pre);
        let sb = split_idents_exec(&b.pre);
        ident_list_cmp_exec(&sa, &sb, false)
    };
    if !matches!(pc, Rel::Eq) {
        return pc;
    }
    if a.build.len() == 0 && b.build.len() == 0 {
        return Rel::Eq;
    }
    let sa = split_idents_exec(&a.build);
    let sb = split_idents_exec(&b.build);
    ident_list_cmp_exec(&sa, &sb, true)
}

} // verus!

verus! {

/// What `semver::Version::parse` yields for a string: `None` when the
/// string is not a valid semantic version, otherwise the numeric triple
/// and the pre-release and build identifier bytes.  The result depends on
/// the characters alone.
pub uninterp spec fn semver_parse(s: Seq<char>) -> Option<(u64, u64, u64, Seq<u8>, Seq<u8>)>;

/// Relies on `semver::Version::parse`: it accepts exactly the semantic
/// version grammar, and its result is a function of the input string.
#[verifier::external_body]
fn parse_version(s: &str) -> (r: Option<VersionParts>)
    ensures
        r is Some <==> semver_parse(s@) is Some,
        r matches Some(p) ==> (semver_parse(s@) matches Some(q) && p.major == q.0 && p.minor
            == q.1 && p.patch == q.2 && p.pre@ == q.3 && p.build@ == q.4),
{
    match semver::Version::parse(s) {
        Ok(v) => Some(
            VersionParts {
                major: v.major,
                minor: v.minor,
                patch: v.patch,
                pre: v.pre.as_str().as_bytes().to_vec(),
                build: v.build.as_str().as_bytes().to_vec(),
            },
        ),
        Err(_) => None,
    }
}

/// The parts named by [`semver_parse`], as a record.
pub open spec fn parts_of(q: (u64, u64, u64, Seq<u8>, Seq<u8>)) -> VersionPartsView {
    VersionPartsView { major: q.0, minor: q.1, patch: q.2, pre: q.3, build: q.4 }
}

/// Whether `latest` names a newer version than `current`: by semantic
/// version order when both parse, and by bytewise string order as the
/// fallback when either does not.
pub open spec fn spec_is_newer(current: Seq<char>, latest: Seq<char>) -> bool {
    match (semver_parse(current), semver_parse(latest)) {
        (Some(c), Some(l)) => version_cmp(parts_of(c), parts_of(l)) is Lt,
        _ => lex_bytes(encode_utf8(latest), encode_utf8(current)) is Gt,
    }
}

/// Compare two version strings; see [`spec_is_newer`].
pub fn is_newer_version(current: &str, latest: &str) -> (r: bool)
    ensures
        r == spec_is_newer(current@, latest@),
{
    match (parse_version(current), parse_version(latest)) {
        (Some(c), Some(l)) => {
            let rel = version_cmp_exec(&c, &l);
            matches!(rel, Rel::Lt)
        },
        (c, l) => {
            let cur_bytes = current.as_bytes_vec();
            let lat_bytes = latest.as_bytes_vec();
            let rel = lex_cmp(&lat_bytes, &cur_bytes);
            matches!(rel, Rel::Gt)
        },
    }
}

/// Mathematical view of an [`UpdateCache`].
#[verifier::ext_equal]
pub ghost struct UpdateCacheView {
    pub last_check_ms: u64,
    pub latest_version: Seq<char>,
}

/// A cached update check: when it was made (milliseconds since the epoch)
/// and the latest version it saw.
#[derive(Debug)]
pub struct UpdateCache {
    pub last_check_ms: u64,
    pub latest_version: String,
}

impl View for UpdateCache {
    type V = UpdateCacheView;

    open spec fn view(&self) -> UpdateCacheView {
        UpdateCacheView {
            last_check_ms: self.last_check_ms,
            latest_version: self.latest_version@,
        }
    }
}

impl DeepView for UpdateCache {
    type V = UpdateCacheView;

    open spec fn deep_view(&self) -> UpdateCacheView {
        self.view()
    }
}

/// A cached check is fresh while it is less than a day old.  A record
/// from the future (a clock that moved backwards) counts as fresh.
pub open spec fn cache_fresh(cache: UpdateCacheView, now_ms: u64) -> bool {
    now_ms < cache.last_check_ms || now_ms - cache.last_check_ms < CACHE_TTL_MS
}

/// The cache file: `<home>/.granary/update-check.json`.
pub fn update_cache_path() -> (r: Result<String, DaemonError>)
    ensures
        r matches Ok(p) ==> str_ends_with(p@, "/.granary/update-check.json"@),
        r matches Err(e) ==> e.kind == ErrorKind::Io,
{
    match config_dir() {
        Ok(dir) => {
            let p = dir.concat("/update-check.json");
            proof {
                reveal_strlit("/.granary/update-check.json");
                reveal_strlit("/.granary");
                reveal_strlit("/update-check.json");
                assert("/.granary/update-check.json"@ =~= "/.granary"@ + "/update-check.json"@);
                assert(p@.subrange(
                    p@.len() - "/.granary/update-check.json"@.len(),
                    p@.len() as int,
                ) =~= "/.granary/update-check.json"@);
            }
            Ok(p)
        },
        Err(e) => Err(e),
    }
}

/// Check for an update using only a cached record: the cached latest
/// version is reported exactly when the record is present, still fresh,
/// and names a newer version than the current one.
pub fn check_for_update_cached(current: &str, cache: Option<&UpdateCache>, now_ms: u64) -> (r:
    Option<String>)
    ensures
        match r {
            Some(latest) => (cache matches Some(c) && cache_fresh(c@, now_ms) && spec_is_newer(
                current@,
                c@.latest_version,
            ) && latest@ == c@.latest_version),
            None => !(cache matches Some(c) && cache_fresh(c@, now_ms) && spec_is_newer(
                current@,
                c@.latest_version,
            )),
        },
{
    match cache {
        Some(c) => {
            let fresh = now_ms < c.last_check_ms || now_ms - c.last_check_ms < CACHE_TTL_MS;
            if fresh && is_newer_version(current, c.latest_version.as_str()) {
                Some(c.latest_version.clone())
            } else {
                None
            }
        },
        None => None,
    }
}

/// The version banner: the current version, extended with an update
/// notice when a fresh cached check names a newer one.
pub open spec fn spec_version_notice(current: Seq<char>, latest: Seq<char>) -> Seq<char> {
    current + "\nUpdate available: "@ + latest + " (run `granary update` to install)"@
}

/// Render the version string, with an update notice when the cached
/// check warrants one.
pub fn version_with_update_notice(current: &str, cache: Option<&UpdateCache>, now_ms: u64) -> (s:
    String)
    ensures
        match check_spec(current@, cache.deep_view(), now_ms) {
            Some(latest) => s@ == spec_version_notice(current@, latest),
            None => s@ == current@,
        },
{
    match check_for_update_cached(current, cache, now_ms) {
        Some(latest) => {
            let s = current.to_owned().concat("\nUpdate available: ").concat(
                latest.as_str(),
            ).concat(" (run `granary update` to install)");
            proof {
                assert(s@ =~= spec_version_notice(current@, latest@));
            }
            s
        },
        None => current.to_owned(),
    }
}

/// What the cached check yields, at the spec level.
pub open spec fn check_spec(
    current: Seq<char>,
    cache: Option<UpdateCacheView>,
    now_ms: u64,
) -> Option<Seq<char>> {
    match cache {
        Some(c) => if cache_fresh(c, now_ms) && spec_is_newer(current, c.latest_version) {
            Some(c.latest_version)
        } else {
            None
        },
        None => None,
    }
}

/// A release tag with any leading `v` stripped, as published tags often
/// carry one.
pub fn normalize_tag(tag: &str) -> (s: String)
    ensures
        tag@.len() > 0 && tag@[0] == 'v' ==> s@ == tag@.skip(1),
        !(tag@.len() > 0 && tag@[0] == 'v') ==> s@ == tag@,
{
    let len = tag.unicode_len();
    if len > 0 && tag.get_char(0) == 'v' {
        let rest = tag.substring_char(1, len);
        proof {
            assert(rest@ =~= tag@.skip(1));
        }
        rest.to_owned()
    } else {
        tag.to_owned()
    }
}

} // verus!
