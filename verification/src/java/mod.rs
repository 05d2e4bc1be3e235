//! Java runtimes: where their binary is, how `java -version` output reads, which one
//! suits a game version, and where Adoptium downloads go.

use vstd::prelude::*;
use crate::seqs::{find_first, first_index, lemma_first_index, lemma_first_index_props};
use crate::text::{
    ends_with, ends_with_exec, chars_of, contains, contains_exec, decimal, lines, lines_of, push_decimal, push_str, split_char,
    split_on, starts_with, starts_with_exec, str_eq,
};
use crate::utils::paths::{join, join_path, path_exists};

verus! {

/// The Java major versions the launcher offers to download.
pub const SUPPORTED_JAVA_VERSIONS: [u32; 7] = [8, 11, 17, 21, 22, 23, 24];

/// The Adoptium API root.
pub const ADOPTIUM_API: &'static str = "https://api.adoptium.net/v3";

/// A Java runtime found on the system or downloaded.
#[derive(Debug, Clone)]
pub struct JavaInstall {
    pub major_version: u32,
    pub version: String,
    pub path: String,
    pub arch: String,
    pub is_bundled: bool,
}

/// The `java` binary under a runtime root.
pub open spec fn java_bin_of(root: Seq<char>) -> Seq<char> {
    join_path(join_path(root, "bin"@), "java"@)
}

impl JavaInstall {
    /// The runtime's `java` binary.
    pub fn java_bin(&self) -> (r: String)
        ensures
            r@ == java_bin_of(self.path@),
    {
        let b = join(self.path.as_str(), "bin");
        join(b.as_str(), "java")
    }

    /// Whether the runtime's `java` binary exists; read from disk at the call.
    pub fn is_available(&self) -> (r: bool) {
        path_exists(self.java_bin().as_str())
    }
}

/// An ASCII decimal digit.
pub open spec fn is_digit(c: char) -> bool {
    '0' <= c && c <= '9'
}

/// The value of a string of decimal digits.
pub open spec fn digits_value(d: Seq<char>) -> nat
    decreases d.len(),
{
    if d.len() == 0 {
        0
    } else {
        digits_value(d.drop_last()) * 10 + ((d.last() as int) - 48) as nat
    }
}

/// `s` without one leading `+`.
pub open spec fn unsigned_digits(s: Seq<char>) -> Seq<char> {
    if s.len() > 0 && s[0] == '+' { s.skip(1) } else { s }
}

/// Every character of `d` is a decimal digit.
pub open spec fn all_digits(d: Seq<char>) -> bool {
    forall|i: int| 0 <= i < d.len() ==> is_digit(#[trigger] d[i])
}

/// std's `u32::from_str`: an optional `+`, then one or more decimal digits whose value
/// fits in a `u32`.
pub open spec fn parse_u32(s: Seq<char>) -> Option<u32> {
    let d = unsigned_digits(s);
    if d.len() > 0 && all_digits(d) && digits_value(d) <= u32::MAX {
        Some(digits_value(d) as u32)
    } else {
        None
    }
}

proof fn lemma_digits_value_bound(d: Seq<char>, k: int)
    requires
        0 <= k <= d.len(),
        forall|i: int| 0 <= i < d.len() ==> is_digit(#[trigger] d[i]),
    ensures
        digits_value(d.take(k)) <= digits_value(d),
    decreases d.len() - k,
{
    if k < d.len() {
        lemma_digits_value_bound(d, k + 1);
        assert(d.take(k + 1).drop_last() =~= d.take(k));
    } else {
        assert(d.take(k) =~= d);
    }
}

/// Reads a `u32` written in decimal.
pub fn parse_u32_exec(s: &str) -> (r: Option<u32>)
    ensures
        r == parse_u32(s@),
{
    let v = chars_of(s);
    let start: usize = if v.len() > 0 && v[0] == '+' { 1 } else { 0 };
    let ghost d = unsigned_digits(s@);
    assert(d =~= v@.skip(start as int));
    if start >= v.len() {
        return None;
    }
    let mut acc: u64 = 0;
    let mut i: usize = start;
    while i < v.len()
        invariant
            v@ == s@,
            d == v@.skip(start as int),
            d == unsigned_digits(s@),
            start < v@.len(),
            start <= i <= v@.len(),
            forall|k: int| start <= k < i ==> is_digit(#[trigger] v@[k]),
            acc == digits_value(v@.subrange(start as int, i as int)),
            acc <= u32::MAX,
        decreases v.len() - i,
    {
        let c = v[i];
        if !('0' <= c && c <= '9') {
            assert(d[i - start] == v@[i as int]);
            assert(!is_digit(d[i - start]));
            assert(!all_digits(d));
            return None;
        }
        let digit = (c as u32 - '0' as u32) as u64;
        assert(v@.subrange(start as int, i + 1).drop_last() =~= v@.subrange(start as int, i as int));
        assert(v@.subrange(start as int, i + 1).last() == c);
        assert(digit == (c as int) - 48);
        assert(digits_value(v@.subrange(start as int, i + 1)) == acc * 10 + digit);
        let next = acc * 10 + digit;
        if next > 0xffff_ffff {
            proof {
                if all_digits(d) {
                    assert(d.take(i + 1 - start) =~= v@.subrange(start as int, i + 1));
                    lemma_digits_value_bound(d, i + 1 - start);
                }
            }
            return None;
        }
        acc = next;
        i = i + 1;
    }
    assert(v@.subrange(start as int, i as int) =~= d);
    Some(acc as u32)
}

/// The first line of `s` that mentions `version`.
pub open spec fn version_line(s: Seq<char>) -> Option<Seq<char>> {
    match find_first(lines(s), |l: Seq<char>| contains(l, "version"@)) {
        Some(i) => Some(lines(s)[i]),
        None => None,
    }
}

/// The text of a Java major version inside a version string: the second dot-separated
/// part of `1.x` versions (Java 8 and older), else the first.
pub open spec fn major_text(ver: Seq<char>) -> Option<Seq<char>> {
    let parts = split_on(ver, '.');
    if starts_with(ver, "1."@) {
        if parts.len() >= 2 { Some(parts[1]) } else { None }
    } else {
        if parts.len() >= 1 { Some(parts[0]) } else { None }
    }
}

/// The major version and version string in one line of `java -version` output: the
/// line's first quoted part, with its major version.
pub open spec fn version_in_line(line: Seq<char>) -> Option<(u32, Seq<char>)> {
    let parts = split_on(line, '"');
    if parts.len() < 2 {
        None
    } else {
        let ver = parts[1];
        match major_text(ver) {
            None => None,
            Some(t) => match parse_u32(t) {
                None => None,
                Some(m) => Some((m, ver)),
            },
        }
    }
}

/// The major version and version string in `java -version` output: the first quoted
/// part of the first line that mentions `version`.
pub open spec fn java_version_of(s: Seq<char>) -> Option<(u32, Seq<char>)> {
    match version_line(s) {
        None => None,
        Some(line) => version_in_line(line),
    }
}

/// The version is read from the first line of the output that mentions `version`; the
/// lines before it, which do not, play no part.
pub proof fn law_first_version_line_is_read(s: Seq<char>, k: int)
    requires
        0 <= k < lines(s).len(),
        contains(lines(s)[k], "version"@),
        forall|j: int| 0 <= j < k ==> !contains(#[trigger] lines(s)[j], "version"@),
    ensures
        java_version_of(s) == version_in_line(lines(s)[k]),
{
    let p = |l: Seq<char>| contains(l, "version"@);
    lemma_first_index(lines(s), p, k);
}

/// Output in which no line mentions `version` gives no version.
pub proof fn law_no_version_line(s: Seq<char>)
    requires
        forall|j: int| 0 <= j < lines(s).len() ==> !contains(#[trigger] lines(s)[j], "version"@),
    ensures
        java_version_of(s) is None,
{
    let p = |l: Seq<char>| contains(l, "version"@);
    lemma_first_index(lines(s), p, lines(s).len() as int);
}

/// Lines that do not mention `version` put in front of the output (such as a notice that
/// `_JAVA_OPTIONS` was picked up) do not change what is read.
pub proof fn law_notice_lines_ignored(s: Seq<char>, t: Seq<char>, pre: Seq<Seq<char>>)
    requires
        lines(t) == pre + lines(s),
        forall|j: int| 0 <= j < pre.len() ==> !contains(#[trigger] pre[j], "version"@),
    ensures
        java_version_of(t) == java_version_of(s),
{
    let p = |l: Seq<char>| contains(l, "version"@);
    lemma_first_index_props(lines(s), p);
    let k = first_index(lines(s), p);
    if k < lines(s).len() {
        assert forall|j: int| 0 <= j < pre.len() + k implies !contains(#[trigger] lines(t)[j], "version"@) by {
            if j < pre.len() {
                assert(lines(t)[j] == pre[j]);
            } else {
                assert(lines(t)[j] == lines(s)[j - pre.len()]);
                assert(!p(lines(s)[j - pre.len()]));
            }
        }
        assert(lines(t)[pre.len() + k] == lines(s)[k]);
        law_first_version_line_is_read(t, pre.len() + k);
        law_first_version_line_is_read(s, k);
    } else {
        assert forall|j: int| 0 <= j < lines(t).len() implies !contains(#[trigger] lines(t)[j], "version"@) by {
            if j < pre.len() {
                assert(lines(t)[j] == pre[j]);
            } else {
                assert(lines(t)[j] == lines(s)[j - pre.len()]);
                assert(!p(lines(s)[j - pre.len()]));
            }
        }
        law_no_version_line(t);
        law_no_version_line(s);
    }
}

/// Reads the major version and version string from `java -version` output.
pub fn parse_java_version_string(s: &str) -> (r: Option<(u32, String)>)
    ensures
        match r {
            Some((m, v)) => java_version_of(s@) == Some((m, v@)),
            None => java_version_of(s@) is None,
        },
{
    let ls = lines_of(s);
    let ghost lv = ls.deep_view();
    let ghost p = |l: Seq<char>| contains(l, "version"@);
    let mut i: usize = 0;
    while i < ls.len() && !contains_exec(ls[i].as_str(), "version")
        invariant
            lv == ls.deep_view(),
            lv == lines(s@),
            p == (|l: Seq<char>| contains(l, "version"@)),
            i <= ls@.len(),
            forall|j: int| 0 <= j < i ==> !p(#[trigger] lv[j]),
        decreases ls.len() - i,
    {
        assert(lv[i as int] == ls@[i as int]@);
        i = i + 1;
    }
    if i < ls.len() {
        assert(lv[i as int] == ls@[i as int]@);
    }
    proof { lemma_first_index(lv, p, i as int); }
    if i == ls.len() {
        return None;
    }
    let k = i;
    assert(version_line(s@) == Some(ls@[k as int]@));
    let parts = split_char(ls[k].as_str(), '"');
    if parts.len() < 2 {
        return None;
    }
    let ver = parts[1].clone();
    assert(ver@ == parts.deep_view()[1]);
    let dots = split_char(ver.as_str(), '.');
    let text: Option<String> = if starts_with_exec(ver.as_str(), "1.") {
        if dots.len() >= 2 { Some(dots[1].clone()) } else { None }
    } else {
        if dots.len() >= 1 { Some(dots[0].clone()) } else { None }
    };
    assert(match text { Some(t) => major_text(ver@) == Some(t@), None => major_text(ver@) is None }) by {
        if dots.len() >= 2 { assert(dots.deep_view()[1] == dots@[1]@); }
        if dots.len() >= 1 { assert(dots.deep_view()[0] == dots@[0]@); }
    }
    match text {
        None => None,
        Some(t) => match parse_u32_exec(t.as_str()) {
            None => None,
            Some(m) => Some((m, ver)),
        },
    }
}

/// How far a runtime is from the required major version: the difference for a version at
/// least as new, and `u32::MAX` for an older one.
pub open spec fn java_distance(major: u32, required: u32) -> int {
    if major >= required { major - required } else { u32::MAX as int }
}

/// The major version a game needs: the one given, else 8.
pub open spec fn required_java(mc_major_java: Option<u32>) -> u32 {
    match mc_major_java {
        Some(m) => m,
        None => 8,
    }
}

/// `i` is the runtime to pick: available, nearest to the requirement among the available
/// ones, and the first such.
pub open spec fn is_best_java(installs: Seq<JavaInstall>, available: Seq<bool>, required: u32, i: int) -> bool {
    &&& 0 <= i < installs.len()
    &&& available[i]
    &&& forall|j: int| 0 <= j < installs.len() && available[j]
        ==> java_distance(installs[i].major_version, required) <= java_distance(#[trigger] installs[j].major_version, required)
    &&& forall|j: int| 0 <= j < i && available[j]
        ==> java_distance(#[trigger] installs[j].major_version, required) > java_distance(installs[i].major_version, required)
}

/// The runtime to use for a game that needs `mc_major_java` (Java 8 when unknown), given
/// which runtimes are available: the available one nearest at or above the requirement,
/// the first among equals; an older one only when nothing newer is available.
pub fn pick_java_among(mc_major_java: Option<u32>, installs: &[JavaInstall], available: &[bool]) -> (r: Option<usize>)
    requires
        installs@.len() == available@.len(),
    ensures
        match r {
            Some(i) => is_best_java(installs@, available@, required_java(mc_major_java), i as int),
            None => forall|j: int| 0 <= j < available@.len() ==> !#[trigger] available@[j],
        },
{
    let required = match mc_major_java {
        Some(m) => m,
        None => 8,
    };
    let mut best: Option<usize> = None;
    let mut best_key: u64 = 0;
    let mut i: usize = 0;
    while i < installs.len()
        invariant
            installs@.len() == available@.len(),
            required == required_java(mc_major_java),
            i <= installs@.len(),
            match best {
                Some(b) => {
                    &&& b < i
                    &&& available@[b as int]
                    &&& best_key == java_distance(installs@[b as int].major_version, required)
                    &&& forall|j: int| 0 <= j < i && available@[j]
                        ==> best_key <= java_distance(#[trigger] installs@[j].major_version, required)
                    &&& forall|j: int| 0 <= j < b && available@[j]
                        ==> java_distance(#[trigger] installs@[j].major_version, required) > best_key
                },
                None => forall|j: int| 0 <= j < i ==> !#[trigger] available@[j],
            },
        decreases installs.len() - i,
    {
        if available[i] {
            let m = installs[i].major_version;
            let key: u64 = if m >= required { (m - required) as u64 } else { 0xffff_ffff };
            match best {
                None => {
                    best = Some(i);
                    best_key = key;
                },
                Some(_) => {
                    if key < best_key {
                        best = Some(i);
                        best_key = key;
                    }
                },
            }
        }
        i = i + 1;
    }
    best
}

/// The runtime behind an optional reference.
pub open spec fn deref_install(r: Option<&JavaInstall>) -> Option<JavaInstall> {
    match r {
        Some(x) => Some(*x),
        None => None,
    }
}

/// `r` is what the pick gives for the runtimes and their availability.
pub open spec fn pick_outcome(installs: Seq<JavaInstall>, available: Seq<bool>, required: u32, r: Option<JavaInstall>) -> bool {
    &&& available.len() == installs.len()
    &&& match r {
        Some(x) => exists|i: int| #[trigger] is_best_java(installs, available, required, i) && x == installs[i],
        None => forall|j: int| 0 <= j < available.len() ==> !#[trigger] available[j],
    }
}

/// The runtime to use for a game that needs `mc_major_java`, among those whose `java`
/// binary exists (read from disk at the call).
pub fn pick_java_for_mc<'a>(mc_major_java: Option<u32>, installs: &'a [JavaInstall]) -> (r: Option<&'a JavaInstall>)
    ensures
        exists|available: Seq<bool>| #[trigger] pick_outcome(installs@, available, required_java(mc_major_java), deref_install(r)),
{
    let mut available: Vec<bool> = Vec::new();
    let mut i: usize = 0;
    while i < installs.len()
        invariant
            i <= installs@.len(),
            available@.len() == i,
        decreases installs.len() - i,
    {
        available.push(installs[i].is_available());
        i = i + 1;
    }
    match pick_java_among(mc_major_java, installs, available.as_slice()) {
        Some(k) => {
            assert(is_best_java(installs@, available@, required_java(mc_major_java), k as int));
            let r = Some(&installs[k]);
            assert(pick_outcome(installs@, available@, required_java(mc_major_java), deref_install(r)));
            r
        },
        None => {
            assert(pick_outcome(installs@, available@, required_java(mc_major_java), None));
            None
        },
    }
}

/// Runtimes without those whose path repeats the path of the runtime just before them;
/// std's `dedup_by_key` on the path.
pub open spec fn dedup_by_path(s: Seq<JavaInstall>) -> Seq<JavaInstall>
    decreases s.len(),
{
    if s.len() == 0 {
        s
    } else if s.len() >= 2 && s[s.len() - 1].path@ == s[s.len() - 2].path@ {
        dedup_by_path(s.drop_last())
    } else {
        dedup_by_path(s.drop_last()).push(s.last())
    }
}

proof fn lemma_dedup_last(s: Seq<JavaInstall>)
    requires
        s.len() > 0,
    ensures
        dedup_by_path(s).len() > 0,
        dedup_by_path(s).last().path@ == s.last().path@,
    decreases s.len(),
{
    if s.len() >= 2 && s[s.len() - 1].path@ == s[s.len() - 2].path@ {
        lemma_dedup_last(s.drop_last());
    }
}

/// Removes runtimes whose path repeats the path of the runtime just before them.
pub fn dedup_installs(installs: Vec<JavaInstall>) -> (r: Vec<JavaInstall>)
    ensures
        r@ == dedup_by_path(installs@),
{
    let ghost orig = installs@;
    let mut rest = installs;
    let mut out: Vec<JavaInstall> = Vec::new();
    let ghost mut k: int = 0;
    while rest.len() > 0
        invariant
            0 <= k <= orig.len(),
            rest@ == orig.skip(k),
            out@ == dedup_by_path(orig.take(k)),
            k > 0 ==> out@.len() > 0 && out@.last().path@ == orig[k - 1].path@,
        decreases rest.len(),
    {
        let x = rest.remove(0);
        proof {
            assert(orig.take(k + 1).drop_last() =~= orig.take(k));
            assert(orig.take(k + 1).last() == x);
        }
        let keep = if out.len() == 0 { true } else { !str_eq(out[out.len() - 1].path.as_str(), x.path.as_str()) };
        proof {
            if k > 0 {
                assert(orig.take(k + 1)[k - 1] == orig[k - 1]);
            }
        }
        if keep {
            out.push(x);
        }
        proof {
            k = k + 1;
            assert(rest@ =~= orig.skip(k));
            lemma_dedup_last(orig.take(k));
        }
    }
    assert(orig.take(k) =~= orig);
    out
}

/// `r` is `s` sorted by major version, runtimes with equal major versions keeping their
/// order; std's stable `sort_by_key`.
pub open spec fn is_stable_sort_by_major(s: Seq<JavaInstall>, r: Seq<JavaInstall>) -> bool {
    exists|perm: Seq<int>| {
        &&& perm.len() == s.len()
        &&& r.len() == s.len()
        &&& forall|a: int| 0 <= a < perm.len() ==> 0 <= #[trigger] perm[a] < s.len()
        &&& forall|a: int, b: int| 0 <= a < b < perm.len() ==> #[trigger] perm[a] != #[trigger] perm[b]
        &&& forall|a: int| 0 <= a < r.len() ==> #[trigger] r[a] == s[perm[a]]
        &&& forall|a: int, b: int| 0 <= a < b < r.len() ==> (#[trigger] r[a]).major_version <= (#[trigger] r[b]).major_version
        &&& forall|a: int, b: int| 0 <= a < b < r.len() && (#[trigger] r[a]).major_version == (#[trigger] r[b]).major_version
            ==> perm[a] < perm[b]
    }
}

/// Sorts runtimes by major version, keeping the order of equal ones.
pub fn sort_installs_by_major(installs: Vec<JavaInstall>) -> (r: Vec<JavaInstall>)
    ensures
        is_stable_sort_by_major(installs@, r@),
{
    let ghost orig = installs@;
    let mut rest = installs;
    let mut out: Vec<JavaInstall> = Vec::new();
    let ghost mut perm: Seq<int> = Seq::empty();
    let ghost mut k: int = 0;
    while rest.len() > 0
        invariant
            0 <= k <= orig.len(),
            rest@ == orig.skip(k),
            out@.len() == k,
            perm.len() == k,
            forall|a: int| 0 <= a < perm.len() ==> 0 <= #[trigger] perm[a] < k,
            forall|a: int, b: int| 0 <= a < b < perm.len() ==> #[trigger] perm[a] != #[trigger] perm[b],
            forall|a: int| 0 <= a < out@.len() ==> #[trigger] out@[a] == orig[perm[a]],
            forall|a: int, b: int| 0 <= a < b < out@.len() ==> (#[trigger] out@[a]).major_version <= (#[trigger] out@[b]).major_version,
            forall|a: int, b: int| 0 <= a < b < out@.len() && (#[trigger] out@[a]).major_version == (#[trigger] out@[b]).major_version
                ==> perm[a] < perm[b],
        decreases rest.len(),
    {
        let x = rest.remove(0);
        assert(x == orig[k]);
        let mut pos: usize = 0;
        while pos < out.len() && out[pos].major_version <= x.major_version
            invariant
                pos <= out@.len(),
                forall|a: int| 0 <= a < pos ==> (#[trigger] out@[a]).major_version <= x.major_version,
            decreases out.len() - pos,
        {
            pos = pos + 1;
        }
        let ghost old_out = out@;
        let ghost old_perm = perm;
        out.insert(pos, x);
        proof {
            perm = old_perm.insert(pos as int, k);
            assert forall|a: int| 0 <= a < out@.len() implies #[trigger] out@[a] == orig[perm[a]] by {
                if a < pos {
                    assert(out@[a] == old_out[a]);
                } else if a > pos {
                    assert(out@[a] == old_out[a - 1]);
                }
            }
            assert forall|a: int| pos < a < out@.len() implies (#[trigger] out@[a]).major_version > x.major_version by {
                assert(out@[a] == old_out[a - 1]);
                assert(old_out[pos as int].major_version > x.major_version);
                if a - 1 > pos {
                    assert(old_out[pos as int].major_version <= old_out[a - 1].major_version);
                }
            }
            assert forall|a: int, b: int| 0 <= a < b < out@.len() implies (#[trigger] out@[a]).major_version <= (#[trigger] out@[b]).major_version by {
                if b < pos {
                    assert(out@[a] == old_out[a] && out@[b] == old_out[b]);
                } else if b == pos {
                    assert(out@[a] == old_out[a]);
                } else if a > pos {
                    assert(out@[a] == old_out[a - 1] && out@[b] == old_out[b - 1]);
                } else if a == pos {
                } else {
                    assert(out@[a] == old_out[a]);
                }
            }
            assert forall|a: int| 0 <= a < perm.len() implies 0 <= #[trigger] perm[a] < k + 1 by {
                if a < pos {
                    assert(perm[a] == old_perm[a]);
                } else if a > pos {
                    assert(perm[a] == old_perm[a - 1]);
                }
            }
            assert forall|a: int, b: int| 0 <= a < b < perm.len() implies #[trigger] perm[a] != #[trigger] perm[b] by {
                if a < pos && b < pos {
                    assert(perm[a] == old_perm[a] && perm[b] == old_perm[b]);
                } else if a < pos && b > pos {
                    assert(perm[a] == old_perm[a] && perm[b] == old_perm[b - 1]);
                } else if a > pos && b > pos {
                    assert(perm[a] == old_perm[a - 1] && perm[b] == old_perm[b - 1]);
                } else if a == pos {
                    assert(perm[b] == old_perm[b - 1]);
                } else {
                    assert(perm[a] == old_perm[a]);
                }
            }
            assert forall|a: int, b: int| 0 <= a < b < out@.len() && (#[trigger] out@[a]).major_version == (#[trigger] out@[b]).major_version
                implies perm[a] < perm[b] by {
                if a < pos && b < pos {
                    assert(perm[a] == old_perm[a] && perm[b] == old_perm[b]);
                    assert(out@[a] == old_out[a] && out@[b] == old_out[b]);
                } else if a < pos && b > pos {
                    assert(perm[a] == old_perm[a] && perm[b] == old_perm[b - 1]);
                    assert(out@[a] == old_out[a] && out@[b] == old_out[b - 1]);
                } else if a > pos && b > pos {
                    assert(perm[a] == old_perm[a - 1] && perm[b] == old_perm[b - 1]);
                    assert(out@[a] == old_out[a - 1] && out@[b] == old_out[b - 1]);
                } else if a == pos {
                } else {
                    assert(perm[a] == old_perm[a]);
                }
            }
            k = k + 1;
            assert(rest@ =~= orig.skip(k));
        }
    }
    assert(is_stable_sort_by_major(orig, out@)) by {
        assert(orig.len() == k);
    }
    out
}

/// Adoptium's name for a CPU architecture: `x64` for `x86_64`, `aarch64` for `aarch64`;
/// other architectures are not supported.
pub open spec fn adoptium_arch_of(arch: Seq<char>) -> Option<Seq<char>> {
    if arch == "x86_64"@ {
        Some("x64"@)
    } else if arch == "aarch64"@ {
        Some("aarch64"@)
    } else {
        None
    }
}

/// Adoptium's name for a CPU architecture, if supported.
pub fn adoptium_arch(arch: &str) -> (r: Option<&'static str>)
    ensures
        match r {
            Some(a) => adoptium_arch_of(arch@) == Some(a@),
            None => adoptium_arch_of(arch@) is None,
        },
{
    if str_eq(arch, "x86_64") {
        Some("x64")
    } else if str_eq(arch, "aarch64") {
        Some("aarch64")
    } else {
        None
    }
}

/// The Adoptium query for the latest Linux JRE of a major version.
pub open spec fn adoptium_url(major: u32, arch: Seq<char>) -> Seq<char> {
    "https://api.adoptium.net/v3"@ + "/assets/latest/"@ + decimal(major as nat) + "/hotspot?architecture="@
        + arch + "&image_type=jre&os=linux&vendor=eclipse"@
}

/// The Adoptium query for the latest Linux JRE of a major version.
pub fn adoptium_release_url(major: u32, arch: &str) -> (r: String)
    ensures
        r@ == adoptium_url(major, arch@),
{
    let mut u = String::new();
    push_str(&mut u, ADOPTIUM_API);
    push_str(&mut u, "/assets/latest/");
    push_decimal(&mut u, major as u64);
    push_str(&mut u, "/hotspot?architecture=");
    push_str(&mut u, arch);
    push_str(&mut u, "&image_type=jre&os=linux&vendor=eclipse");
    u
}

/// Where a downloaded runtime of a major version is unpacked.
pub open spec fn java_install_dir_of(java_dir: Seq<char>, major: u32) -> Seq<char> {
    join_path(java_dir, "java-"@ + decimal(major as nat))
}

/// Where a downloaded runtime of a major version is unpacked.
pub fn java_install_dir(java_dir: &str, major: u32) -> (r: String)
    ensures
        r@ == java_install_dir_of(java_dir@, major),
{
    let mut name = String::new();
    push_str(&mut name, "java-");
    push_decimal(&mut name, major as u64);
    join(java_dir, name.as_str())
}

/// How a runtime archive is packed.
#[derive(Debug, Clone, Copy, PartialEq, Eq, Structural)]
pub enum ArchiveKind {
    TarGz,
    Zip,
    Unknown,
}

/// How an archive is packed, by its file name: `.tar.gz` or `.tgz`, then `.zip`.
pub open spec fn archive_kind_of(name: Seq<char>) -> ArchiveKind {
    if ends_with(name, ".tar.gz"@) || ends_with(name, ".tgz"@) {
        ArchiveKind::TarGz
    } else if ends_with(name, ".zip"@) {
        ArchiveKind::Zip
    } else {
        ArchiveKind::Unknown
    }
}

/// How an archive is packed, by its file name.
pub fn archive_kind(name: &str) -> (r: ArchiveKind)
    ensures
        r == archive_kind_of(name@),
{
    if ends_with_exec(name, ".tar.gz") || ends_with_exec(name, ".tgz") {
        ArchiveKind::TarGz
    } else if ends_with_exec(name, ".zip") {
        ArchiveKind::Zip
    } else {
        ArchiveKind::Unknown
    }
}

/// The directories searched for system runtimes, each holding one runtime per entry.
pub const SYSTEM_JAVA_DIRS: [&'static str; 4] = ["/usr/lib/jvm", "/usr/lib64/jvm", "/opt/java", "/opt/jdk"];

/// The runtimes found on the system, ordered by major version (stable) and without a
/// runtime whose path repeats the one just before it.
pub fn tidy_detected(installs: Vec<JavaInstall>) -> (r: Vec<JavaInstall>)
    ensures
        exists|sorted: Seq<JavaInstall>| #[trigger] is_stable_sort_by_major(installs@, sorted)
            && r@ == dedup_by_path(sorted),
{
    let sorted = sort_installs_by_major(installs);
    let ghost s = sorted@;
    let r = dedup_installs(sorted);
    assert(is_stable_sort_by_major(installs@, s) && r@ == dedup_by_path(s));
    r
}

/// Finds, downloads and picks Java runtimes over an HTTP client.
pub struct JavaManager {
    client: reqwest::Client,
}

impl JavaManager {
    /// The HTTP client downloads go through.
    pub closed spec fn http_client(self) -> reqwest::Client {
        self.client
    }

    /// A Java manager over `client`.
    pub fn new(client: reqwest::Client) -> (r: Self)
        ensures
            r.http_client() == client,
    {
        JavaManager { client }
    }

    /// The HTTP client downloads go through.
    pub fn http(&self) -> (r: &reqwest::Client)
        ensures
            *r == self.http_client(),
    {
        &self.client
    }

    /// The runtime to use for a game that needs `mc_major_java` (Java 8 when not given):
    /// among the runtimes whose `java` binary exists, the nearest at or above the need,
    /// the first among equals; an older one only when nothing newer exists.
    pub fn pick_java_for_mc<'a>(&self, mc_major_java: Option<u32>, installs: &'a [JavaInstall]) -> (r: Option<&'a JavaInstall>)
        ensures
            exists|available: Seq<bool>| #[trigger] pick_outcome(installs@, available, required_java(mc_major_java), deref_install(r)),
    {
        pick_java_for_mc(mc_major_java, installs)
    }
}

} // verus!
