//! Text primitives over `String` whose behaviour is stated on `Seq<char>`.

use vstd::prelude::*;
use crate::seqs::{first_index, lemma_first_index, lemma_first_index_props};

verus! {

/// Appends one character; std's `String::push`.
#[verifier::external_body]
pub(crate) fn push_char(s: &mut String, c: char)
    ensures
        final(s)@ == old(s)@.push(c),
{
    s.push(c);
}

/// Appends a string slice.
pub(crate) fn push_str(s: &mut String, t: &str)
    ensures
        final(s)@ == old(s)@ + t@,
{
    s.append(t);
}

/// The concatenation of two string slices.
pub fn concat(a: &str, b: &str) -> (r: String)
    ensures
        r@ == a@ + b@,
{
    let mut s = String::new();
    push_str(&mut s, a);
    push_str(&mut s, b);
    s
}

/// The lower-case form of a string, as std's `str::to_lowercase` gives it.
pub uninterp spec fn lowercase_of(s: Seq<char>) -> Seq<char>;

/// std's `str::to_lowercase`: each character mapped to its Unicode lower-case form.
/// The Unicode tables are not restated; the result is named as a function of `s`.
#[verifier::external_body]
pub(crate) fn to_lowercase(s: &str) -> (r: String)
    ensures
        r@ == lowercase_of(s@),
{
    s.to_lowercase()
}

/// Content equality of two string slices; std's `<str as PartialEq>::eq`,
/// documented to compare the two strings character for character.
#[verifier::external_body]
pub(crate) fn str_eq(a: &str, b: &str) -> (r: bool)
    ensures
        r == (a@ == b@),
{
    a == b
}

/// The characters of `s`, in order.
pub fn chars_of(s: &str) -> (v: Vec<char>)
    ensures
        v@ == s@,
{
    let n = s.unicode_len();
    let mut v: Vec<char> = Vec::new();
    let mut i: usize = 0;
    while i < n
        invariant
            n == s@.len(),
            i <= n,
            v@ == s@.subrange(0, i as int),
        decreases n - i,
    {
        let c = s.get_char(i);
        v.push(c);
        i = i + 1;
    }
    v
}

/// A `String` holding `v[from..to]`.
pub fn string_from_range(v: &Vec<char>, from: usize, to: usize) -> (s: String)
    requires
        from <= to <= v@.len(),
    ensures
        s@ == v@.subrange(from as int, to as int),
{
    let mut s = String::new();
    let mut i = from;
    while i < to
        invariant
            from <= i <= to,
            to <= v@.len(),
            s@ == v@.subrange(from as int, i as int),
        decreases to - i,
    {
        push_char(&mut s, v[i]);
        i = i + 1;
    }
    s
}

/// The decimal digit character for `d < 10`.
pub open spec fn digit_char(d: nat) -> char {
    if d == 0 { '0' } else if d == 1 { '1' } else if d == 2 { '2' } else if d == 3 { '3' }
    else if d == 4 { '4' } else if d == 5 { '5' } else if d == 6 { '6' } else if d == 7 { '7' }
    else if d == 8 { '8' } else { '9' }
}

/// The decimal representation of `n`, without sign or leading zeros.
pub open spec fn decimal(n: nat) -> Seq<char>
    decreases n,
{
    if n < 10 {
        seq![digit_char(n)]
    } else {
        decimal(n / 10).push(digit_char(n % 10))
    }
}

fn exec_digit_char(d: u64) -> (c: char)
    requires
        d < 10,
    ensures
        c == digit_char(d as nat),
{
    if d == 0 { '0' } else if d == 1 { '1' } else if d == 2 { '2' } else if d == 3 { '3' }
    else if d == 4 { '4' } else if d == 5 { '5' } else if d == 6 { '6' } else if d == 7 { '7' }
    else if d == 8 { '8' } else { '9' }
}

/// Appends the decimal representation of `n` to `s`.
pub fn push_decimal(s: &mut String, n: u64)
    ensures
        final(s)@ == old(s)@ + decimal(n as nat),
    decreases n,
{
    if n < 10 {
        push_char(s, exec_digit_char(n));
    } else {
        push_decimal(s, n / 10);
        push_char(s, exec_digit_char(n % 10));
        assert(old(s)@ + decimal(n as nat) =~= old(s)@ + decimal((n / 10) as nat) + seq![digit_char((n % 10) as nat)]);
    }
}

/// The decimal text of `n`.
pub fn decimal_string(n: u64) -> (r: String)
    ensures
        r@ == decimal(n as nat),
{
    let mut s = String::new();
    push_decimal(&mut s, n);
    s
}

/// `p` occurs in `s` at position `i`.
pub open spec fn occurs_at(s: Seq<char>, p: Seq<char>, i: int) -> bool {
    0 <= i && i + p.len() <= s.len() && s.subrange(i, i + p.len()) == p
}

/// `s` begins with `p`.
pub open spec fn starts_with(s: Seq<char>, p: Seq<char>) -> bool {
    occurs_at(s, p, 0)
}

/// `s` ends with `p`.
pub open spec fn ends_with(s: Seq<char>, p: Seq<char>) -> bool {
    occurs_at(s, p, s.len() - p.len())
}

/// `p` occurs somewhere in `s`.
pub open spec fn contains(s: Seq<char>, p: Seq<char>) -> bool {
    exists|i: int| occurs_at(s, p, i)
}

/// Whether `p` occurs in `v` at position `i`.
pub fn occurs_at_exec(v: &Vec<char>, p: &Vec<char>, i: usize) -> (r: bool)
    ensures
        r == occurs_at(v@, p@, i as int),
{
    if i > v.len() || p.len() > v.len() - i {
        return false;
    }
    let n = v.len();
    let mut j: usize = 0;
    while j < p.len()
        invariant
            n == v@.len(),
            i + p@.len() <= v@.len(),
            j <= p@.len(),
            forall|k: int| 0 <= k < j ==> v@[i + k] == p@[k],
        decreases p.len() - j,
    {
        assert(i + j < v@.len());
        if v[i + j] != p[j] {
            assert(v@.subrange(i as int, i + p@.len())[j as int] != p@[j as int]);
            return false;
        }
        j = j + 1;
    }
    assert(v@.subrange(i as int, i + p@.len()) =~= p@);
    true
}

/// Whether `s` begins with `p`.
pub fn starts_with_exec(s: &str, p: &str) -> (r: bool)
    ensures
        r == starts_with(s@, p@),
{
    let v = chars_of(s);
    let q = chars_of(p);
    occurs_at_exec(&v, &q, 0)
}

/// Whether `s` ends with `p`.
pub fn ends_with_exec(s: &str, p: &str) -> (r: bool)
    ensures
        r == ends_with(s@, p@),
{
    let v = chars_of(s);
    let q = chars_of(p);
    if q.len() > v.len() {
        return false;
    }
    occurs_at_exec(&v, &q, v.len() - q.len())
}

/// Whether `p` occurs in `s`.
pub fn contains_exec(s: &str, p: &str) -> (r: bool)
    ensures
        r == contains(s@, p@),
{
    let v = chars_of(s);
    let q = chars_of(p);
    let mut i: usize = 0;
    loop
        invariant
            v@ == s@,
            q@ == p@,
            i <= v@.len(),
            forall|k: int| 0 <= k < i ==> !occurs_at(v@, q@, k),
        ensures
            i == v@.len(),
            forall|k: int| 0 <= k <= i ==> !occurs_at(v@, q@, k),
        decreases v.len() - i,
    {
        if occurs_at_exec(&v, &q, i) {
            return true;
        }
        if i == v.len() {
            assert(!occurs_at(v@, q@, i as int));
            break;
        }
        i = i + 1;
    }
    assert forall|k: int| !occurs_at(v@, q@, k) by {
        if 0 <= k < i {
        }
    }
    false
}

/// `s` with every non-overlapping occurrence of `pat`, scanned from the left,
/// replaced by `rep`.
pub open spec fn replace_all(s: Seq<char>, pat: Seq<char>, rep: Seq<char>) -> Seq<char>
    decreases s.len(),
{
    if pat.len() == 0 || s.len() == 0 {
        s
    } else if starts_with(s, pat) {
        rep + replace_all(s.skip(pat.len() as int), pat, rep)
    } else {
        seq![s[0]] + replace_all(s.skip(1), pat, rep)
    }
}

/// The ASCII lower-case form of a character: `A`..`Z` become `a`..`z`, others stay.
pub open spec fn ascii_lower(c: char) -> char {
    if 'A' <= c && c <= 'Z' { ((c as u32) + 32) as char } else { c }
}

/// Text that differs from `p` at a position both have does not start with `p`.
pub proof fn lemma_not_starts_with(s: Seq<char>, p: Seq<char>, k: int)
    requires
        0 <= k < p.len(),
        k < s.len(),
        s[k] != p[k],
    ensures
        !starts_with(s, p),
{
    if p.len() <= s.len() {
        assert(s.subrange(0, p.len() as int)[k] == s[k]);
    }
}

/// Text that holds no occurrence of `pat`'s first character is left as it is.
pub proof fn lemma_replace_all_absent(s: Seq<char>, pat: Seq<char>, rep: Seq<char>)
    requires
        pat.len() > 0,
        forall|i: int| 0 <= i < s.len() ==> #[trigger] s[i] != pat[0],
    ensures
        replace_all(s, pat, rep) == s,
    decreases s.len(),
{
    if s.len() > 0 {
        if pat.len() <= s.len() {
            assert(s.subrange(0, pat.len() as int)[0] == s[0]);
        }
        assert(!starts_with(s, pat));
        lemma_replace_all_absent(s.skip(1), pat, rep);
        assert(seq![s[0]] + s.skip(1) =~= s);
    }
}

/// Text that does not start with `pat`, and holds `pat`'s first character nowhere after
/// its own first character, is left as it is.
pub proof fn lemma_replace_all_head_only(s: Seq<char>, pat: Seq<char>, rep: Seq<char>)
    requires
        pat.len() > 0,
        s.len() > 0,
        !starts_with(s, pat),
        forall|i: int| 1 <= i < s.len() ==> #[trigger] s[i] != pat[0],
    ensures
        replace_all(s, pat, rep) == s,
{
    let t = s.skip(1);
    assert forall|i: int| 0 <= i < t.len() implies #[trigger] t[i] != pat[0] by {
        assert(t[i] == s[i + 1]);
    }
    lemma_replace_all_absent(t, pat, rep);
    assert(seq![s[0]] + t =~= s);
}

/// Replacing `pat` in `pat` itself gives `rep`.
pub proof fn lemma_replace_all_whole(pat: Seq<char>, rep: Seq<char>)
    requires
        pat.len() > 0,
    ensures
        replace_all(pat, pat, rep) == rep,
{
    assert(pat.subrange(0, pat.len() as int) =~= pat);
    assert(starts_with(pat, pat));
    assert(pat.skip(pat.len() as int) =~= Seq::<char>::empty());
    assert(replace_all(Seq::<char>::empty(), pat, rep) == Seq::<char>::empty());
    assert(rep + Seq::<char>::empty() =~= rep);
}

/// `s` with every occurrence of `pat` replaced by `rep`; std's `str::replace`.
pub fn replace_str(s: &str, pat: &str, rep: &str) -> (r: String)
    requires
        pat@.len() > 0,
    ensures
        r@ == replace_all(s@, pat@, rep@),
{
    let v = chars_of(s);
    let p = chars_of(pat);
    let mut out = String::new();
    let mut i: usize = 0;
    assert(v@.skip(0) =~= v@);
    while i < v.len()
        invariant
            v@ == s@,
            p@ == pat@,
            p@.len() > 0,
            i <= v@.len(),
            out@ + replace_all(v@.skip(i as int), p@, rep@) == replace_all(v@, p@, rep@),
        decreases v.len() - i,
    {
        let ghost rest = v@.skip(i as int);
        if occurs_at_exec(&v, &p, i) {
            assert(rest.subrange(0, p@.len() as int) =~= v@.subrange(i as int, i + p@.len()));
            assert(rest.skip(p@.len() as int) =~= v@.skip(i + p@.len()));
            push_str(&mut out, rep);
            assert(out@ + replace_all(v@.skip(i + p@.len()), p@, rep@) =~= replace_all(v@, p@, rep@));
            i = i + p.len();
        } else {
            assert(p@.len() <= rest.len() ==> rest.subrange(0, p@.len() as int) =~= v@.subrange(i as int, i + p@.len()));
            assert(rest.skip(1) =~= v@.skip(i + 1));
            assert(rest[0] == v@[i as int]);
            push_char(&mut out, v[i]);
            assert(out@ + replace_all(v@.skip(i + 1), p@, rep@) =~= replace_all(v@, p@, rep@));
            i = i + 1;
        }
    }
    assert(v@.skip(i as int) =~= Seq::<char>::empty());
    assert(out@ =~= replace_all(v@, p@, rep@));
    out
}

/// `s` with every leading occurrence of `p` removed, repeatedly.
pub open spec fn trim_start_all(s: Seq<char>, p: Seq<char>) -> Seq<char>
    decreases s.len(),
{
    if p.len() == 0 || !starts_with(s, p) {
        s
    } else {
        trim_start_all(s.skip(p.len() as int), p)
    }
}

/// `s` with every trailing occurrence of `p` removed, repeatedly.
pub open spec fn trim_end_all(s: Seq<char>, p: Seq<char>) -> Seq<char>
    decreases s.len(),
{
    if p.len() == 0 || !ends_with(s, p) {
        s
    } else {
        trim_end_all(s.take(s.len() - p.len()), p)
    }
}

/// std's `str::trim_start_matches` with a string pattern.
pub fn trim_start_matches(s: &str, p: &str) -> (r: String)
    ensures
        r@ == trim_start_all(s@, p@),
{
    let v = chars_of(s);
    let q = chars_of(p);
    if q.len() == 0 {
        return string_from_range(&v, 0, v.len());
    }
    let mut i: usize = 0;
    assert(v@.skip(0) =~= v@);
    while occurs_at_exec(&v, &q, i)
        invariant
            v@ == s@,
            q@ == p@,
            q@.len() > 0,
            i <= v@.len(),
            trim_start_all(v@.skip(i as int), q@) == trim_start_all(v@, q@),
        decreases v.len() - i,
    {
        let ghost rest = v@.skip(i as int);
        assert(rest.subrange(0, q@.len() as int) =~= v@.subrange(i as int, i + q@.len()));
        assert(rest.skip(q@.len() as int) =~= v@.skip(i + q@.len()));
        i = i + q.len();
    }
    let ghost rest = v@.skip(i as int);
    assert(q@.len() <= rest.len() ==> rest.subrange(0, q@.len() as int) =~= v@.subrange(i as int, i + q@.len()));
    let r = string_from_range(&v, i, v.len());
    assert(r@ =~= rest);
    r
}

/// std's `str::trim_end_matches` with a string pattern.
pub fn trim_end_matches(s: &str, p: &str) -> (r: String)
    ensures
        r@ == trim_end_all(s@, p@),
{
    let v = chars_of(s);
    let q = chars_of(p);
    if q.len() == 0 {
        return string_from_range(&v, 0, v.len());
    }
    let mut n: usize = v.len();
    assert(v@.take(n as int) =~= v@);
    loop
        invariant
            v@ == s@,
            q@ == p@,
            q@.len() > 0,
            n <= v@.len(),
            trim_end_all(v@.take(n as int), q@) == trim_end_all(v@, q@),
        ensures
            n <= v@.len(),
            trim_end_all(v@.take(n as int), q@) == trim_end_all(v@, q@),
            !ends_with(v@.take(n as int), q@),
        decreases n,
    {
        let ghost t = v@.take(n as int);
        if q.len() > n {
            break;
        }
        if !occurs_at_exec(&v, &q, n - q.len()) {
            assert(t.subrange(n - q@.len(), n as int) =~= v@.subrange(n - q@.len(), n as int));
            break;
        }
        assert(t.subrange(n - q@.len(), n as int) =~= v@.subrange(n - q@.len(), n as int));
        assert(t.take(n - q@.len()) =~= v@.take(n - q@.len()));
        n = n - q.len();
    }
    let r = string_from_range(&v, 0, n);
    assert(r@ =~= v@.take(n as int));
    r
}

/// The test "is the character `c`".
pub open spec fn is_char(c: char) -> spec_fn(char) -> bool {
    |x: char| x == c
}

/// The pieces of `s` between occurrences of `c`; std's `str::split` with a char.
pub open spec fn split_on(s: Seq<char>, c: char) -> Seq<Seq<char>>
    decreases s.len(),
{
    let k = first_index(s, is_char(c));
    if k >= s.len() {
        seq![s]
    } else {
        proof { lemma_first_index_props(s, is_char(c)); }
        seq![s.take(k)] + split_on(s.skip(k + 1), c)
    }
}

/// The pieces of `s` between occurrences of `c`.
pub fn split_char(s: &str, c: char) -> (r: Vec<String>)
    ensures
        r.deep_view() == split_on(s@, c),
{
    let v = chars_of(s);
    let mut out: Vec<String> = Vec::new();
    let mut start: usize = 0;
    let mut i: usize = 0;
    assert(v@.skip(0) =~= v@);
    while i < v.len()
        invariant
            v@ == s@,
            start <= i <= v@.len(),
            forall|k: int| start <= k < i ==> v@[k] != c,
            out.deep_view() + split_on(v@.skip(start as int), c) == split_on(v@, c),
        decreases v.len() - i,
    {
        if v[i] == c {
            let ghost rest = v@.skip(start as int);
            proof {
                assert forall|j: int| 0 <= j < i - start implies !is_char(c)(#[trigger] rest[j]) by {
                    assert(rest[j] == v@[start + j]);
                }
                assert(rest[i - start] == v@[i as int]);
                lemma_first_index(rest, is_char(c), i - start);
                assert(rest.take(i - start) =~= v@.subrange(start as int, i as int));
                assert(rest.skip(i - start + 1) =~= v@.skip(i + 1));
            }
            let piece = string_from_range(&v, start, i);
            let ghost before = out.deep_view();
            out.push(piece);
            assert(out.deep_view() =~= before.push(piece@));
            start = i + 1;
            assert(out.deep_view() + split_on(v@.skip(start as int), c) =~= split_on(v@, c));
        }
        i = i + 1;
    }
    let ghost rest = v@.skip(start as int);
    proof {
        assert forall|j: int| 0 <= j < rest.len() implies !is_char(c)(#[trigger] rest[j]) by {
            assert(rest[j] == v@[start + j]);
        }
        lemma_first_index(rest, is_char(c), rest.len() as int);
    }
    let piece = string_from_range(&v, start, v.len());
    assert(piece@ =~= rest);
    let ghost before = out.deep_view();
    out.push(piece);
    assert(out.deep_view() =~= before.push(piece@));
    assert(out.deep_view() =~= split_on(v@, c));
    out
}

/// A separator between two texts splits each of them: splitting `x`, `c`, `y` at `c`
/// gives the pieces of `x` followed by those of `y`.
pub proof fn lemma_split_on_concat(x: Seq<char>, y: Seq<char>, c: char)
    ensures
        split_on(x + seq![c] + y, c) == split_on(x, c) + split_on(y, c),
    decreases x.len(),
{
    let s = x + seq![c] + y;
    lemma_first_index_props(x, is_char(c));
    let k = first_index(x, is_char(c));
    if k < x.len() {
        assert forall|j: int| 0 <= j < k implies !is_char(c)(#[trigger] s[j]) by {
            assert(s[j] == x[j]);
        }
        assert(s[k] == x[k]);
        lemma_first_index(s, is_char(c), k);
        assert(s.skip(k + 1) =~= x.skip(k + 1) + seq![c] + y);
        assert(s.take(k) =~= x.take(k));
        lemma_split_on_concat(x.skip(k + 1), y, c);
        assert(split_on(s, c) =~= seq![x.take(k)] + (split_on(x.skip(k + 1), c) + split_on(y, c)));
    } else {
        assert forall|j: int| 0 <= j < x.len() implies !is_char(c)(#[trigger] s[j]) by {
            assert(s[j] == x[j]);
        }
        assert(s[x.len() as int] == c);
        lemma_first_index(s, is_char(c), x.len() as int);
        assert(s.take(x.len() as int) =~= x);
        assert(s.skip(x.len() as int + 1) =~= y);
    }
}

/// A text without the separator is one piece.
pub proof fn lemma_split_on_single(x: Seq<char>, c: char)
    requires
        !x.contains(c),
    ensures
        split_on(x, c) == seq![x],
{
    assert forall|j: int| 0 <= j < x.len() implies !is_char(c)(#[trigger] x[j]) by {
        if x[j] == c {
            assert(x.contains(c));
        }
    }
    lemma_first_index(x, is_char(c), x.len() as int);
}

/// Whether `c` occurs in `s`.
pub fn has_char(s: &str, c: char) -> (r: bool)
    ensures
        r == s@.contains(c),
{
    let v = chars_of(s);
    let mut i: usize = 0;
    while i < v.len()
        invariant
            v@ == s@,
            i <= v@.len(),
            forall|j: int| 0 <= j < i ==> v@[j] != c,
        decreases v.len() - i,
    {
        if v[i] == c {
            assert(s@[i as int] == c);
            return true;
        }
        i = i + 1;
    }
    false
}

/// A text holding the separator splits into at least two pieces.
pub proof fn lemma_split_on_two(s: Seq<char>, c: char)
    requires
        s.contains(c),
    ensures
        split_on(s, c).len() >= 2,
{
    lemma_first_index_props(s, is_char(c));
    let j = choose|j: int| 0 <= j < s.len() && s[j] == c;
    assert(is_char(c)(s[j]));
    let k = first_index(s, is_char(c));
    lemma_split_on_nonempty(s.skip(k + 1), c);
}

/// `x` without one trailing carriage return.
pub open spec fn strip_cr(x: Seq<char>) -> Seq<char> {
    if x.len() > 0 && x.last() == '\r' {
        x.drop_last()
    } else {
        x
    }
}

/// The lines of `s`; std's `str::lines`: split at `\n`, a `\r` right before a `\n`
/// dropped, and no empty line after a final `\n`.
pub open spec fn lines(s: Seq<char>) -> Seq<Seq<char>> {
    let ps = split_on(s, '\n');
    if s.len() == 0 {
        seq![]
    } else if s.last() == '\n' {
        ps.drop_last().map_values(|x: Seq<char>| strip_cr(x))
    } else {
        ps.drop_last().map_values(|x: Seq<char>| strip_cr(x)).push(ps.last())
    }
}

pub proof fn lemma_split_on_nonempty(s: Seq<char>, c: char)
    ensures
        split_on(s, c).len() >= 1,
    decreases s.len(),
{
    lemma_first_index_props(s, is_char(c));
    let k = first_index(s, is_char(c));
    if k < s.len() {
        lemma_split_on_nonempty(s.skip(k + 1), c);
    }
}

fn strip_cr_exec(x: &String) -> (r: String)
    ensures
        r@ == strip_cr(x@),
{
    let v = chars_of(x.as_str());
    if v.len() > 0 && v[v.len() - 1] == '\r' {
        let r = string_from_range(&v, 0, v.len() - 1);
        assert(r@ =~= x@.drop_last());
        r
    } else {
        let r = string_from_range(&v, 0, v.len());
        assert(r@ =~= x@);
        r
    }
}

/// The lines of `s`.
pub fn lines_of(s: &str) -> (r: Vec<String>)
    ensures
        r.deep_view() == lines(s@),
{
    let v = chars_of(s);
    let ps = split_char(s, '\n');
    proof { lemma_split_on_nonempty(s@, '\n'); }
    let mut out: Vec<String> = Vec::new();
    if v.len() == 0 {
        assert(out.deep_view() =~= lines(s@));
        return out;
    }
    let n = ps.len() - 1;
    let ghost target = ps.deep_view().drop_last().map_values(|x: Seq<char>| strip_cr(x));
    let mut i: usize = 0;
    while i < n
        invariant
            n + 1 == ps.deep_view().len(),
            target == ps.deep_view().drop_last().map_values(|x: Seq<char>| strip_cr(x)),
            i <= n,
            out.deep_view() == target.take(i as int),
        decreases n - i,
    {
        let line = strip_cr_exec(&ps[i]);
        let ghost before = out.deep_view();
        out.push(line);
        assert(ps.deep_view()[i as int] == ps@[i as int]@);
        assert(target[i as int] == strip_cr(ps@[i as int]@));
        assert(out.deep_view() =~= before.push(line@));
        assert(out.deep_view() =~= target.take(i + 1));
        i = i + 1;
    }
    assert(out.deep_view() =~= target);
    if v[v.len() - 1] != '\n' {
        let last = ps[n].clone();
        let ghost before = out.deep_view();
        out.push(last);
        assert(ps.deep_view().last() == ps@[n as int]@);
        assert(out.deep_view() =~= before.push(last@));
    }
    assert(out.deep_view() =~= lines(s@));
    out
}

/// Unicode `White_Space` characters; std's `char::is_whitespace`.
pub open spec fn is_ws(c: char) -> bool {
    ||| ('\u{9}' <= c && c <= '\u{d}')
    ||| c == ' '
    ||| c == '\u{85}'
    ||| c == '\u{a0}'
    ||| c == '\u{1680}'
    ||| ('\u{2000}' <= c && c <= '\u{200a}')
    ||| c == '\u{2028}'
    ||| c == '\u{2029}'
    ||| c == '\u{202f}'
    ||| c == '\u{205f}'
    ||| c == '\u{3000}'
}

/// The test "is whitespace".
pub open spec fn ws() -> spec_fn(char) -> bool {
    |c: char| is_ws(c)
}

/// Whether `c` is whitespace.
pub fn is_ws_exec(c: char) -> (r: bool)
    ensures
        r == is_ws(c),
{
    ('\u{9}' <= c && c <= '\u{d}') || c == ' ' || c == '\u{85}' || c == '\u{a0}' || c == '\u{1680}'
        || ('\u{2000}' <= c && c <= '\u{200a}') || c == '\u{2028}' || c == '\u{2029}'
        || c == '\u{202f}' || c == '\u{205f}' || c == '\u{3000}'
}

/// `s` without leading whitespace.
pub open spec fn trim_start_ws(s: Seq<char>) -> Seq<char>
    decreases s.len(),
{
    if s.len() > 0 && is_ws(s[0]) {
        trim_start_ws(s.skip(1))
    } else {
        s
    }
}

/// `s` without trailing whitespace.
pub open spec fn trim_end_ws(s: Seq<char>) -> Seq<char>
    decreases s.len(),
{
    if s.len() > 0 && is_ws(s.last()) {
        trim_end_ws(s.drop_last())
    } else {
        s
    }
}

/// `s` without leading and trailing whitespace; std's `str::trim`.
pub open spec fn trim(s: Seq<char>) -> Seq<char> {
    trim_end_ws(trim_start_ws(s))
}

/// `s` without leading and trailing whitespace.
pub fn trim_exec(s: &str) -> (r: String)
    ensures
        r@ == trim(s@),
{
    let v = chars_of(s);
    let mut a: usize = 0;
    assert(v@.skip(0) =~= v@);
    while a < v.len() && is_ws_exec(v[a])
        invariant
            v@ == s@,
            a <= v@.len(),
            trim_start_ws(v@.skip(a as int)) == trim_start_ws(v@),
        decreases v.len() - a,
    {
        assert(v@.skip(a as int).skip(1) =~= v@.skip(a + 1));
        a = a + 1;
    }
    let ghost t = v@.skip(a as int);
    assert(trim_start_ws(t) == t);
    let mut b: usize = v.len();
    assert(t.take(b - a) =~= t);
    while b > a && is_ws_exec(v[b - 1])
        invariant
            v@ == s@,
            a <= b <= v@.len(),
            t == v@.skip(a as int),
            trim_end_ws(t.take(b - a)) == trim_end_ws(t),
        decreases b,
    {
        assert(t.take(b - a).drop_last() =~= t.take(b - 1 - a));
        b = b - 1;
    }
    let r = string_from_range(&v, a, b);
    assert(r@ =~= t.take(b - a));
    r
}

/// Trimming trailing whitespace never lengthens a text.
pub proof fn lemma_trim_end_ws_len(s: Seq<char>)
    ensures
        trim_end_ws(s).len() <= s.len(),
    decreases s.len(),
{
    if s.len() > 0 && is_ws(s.last()) {
        lemma_trim_end_ws_len(s.drop_last());
    }
}

/// A non-empty text that trimming leaves unchanged does not end in whitespace.
pub proof fn lemma_trimmed_last(s: Seq<char>)
    requires
        trim(s) == s,
        s.len() > 0,
    ensures
        !is_ws(s.last()),
{
    lemma_trim_start_ws_suffix(s);
    if is_ws(s[0]) {
        lemma_trim_start_ws_suffix(s.skip(1));
        lemma_trim_end_ws_len(trim_start_ws(s));
        assert(trim_start_ws(s) == trim_start_ws(s.skip(1)));
    } else {
        assert(trim_start_ws(s) == s);
        if is_ws(s.last()) {
            lemma_trim_end_ws_len(s.drop_last());
        }
    }
}

/// Trimming leading whitespace leaves a suffix that starts with a non-whitespace character.
pub proof fn lemma_trim_start_ws_suffix(s: Seq<char>)
    ensures
        trim_start_ws(s).len() <= s.len(),
        trim_start_ws(s) == s.skip(s.len() - trim_start_ws(s).len()),
        trim_start_ws(s).len() > 0 ==> !is_ws(trim_start_ws(s)[0]),
    decreases s.len(),
{
    if s.len() > 0 && is_ws(s[0]) {
        lemma_trim_start_ws_suffix(s.skip(1));
        assert(s.skip(1).skip(s.len() - 1 - trim_start_ws(s).len()) =~= s.skip(s.len() - trim_start_ws(s).len()));
    } else {
        assert(s.skip(0) =~= s);
    }
}

/// The whitespace-separated words of `s`; std's `str::split_whitespace`.
pub open spec fn words(s: Seq<char>) -> Seq<Seq<char>>
    decreases s.len(),
{
    let t = trim_start_ws(s);
    if t.len() == 0 {
        seq![]
    } else {
        proof {
            lemma_trim_start_ws_suffix(s);
            lemma_first_index_props(t, ws());
        }
        let k = first_index(t, ws());
        seq![t.take(k)] + words(t.skip(k))
    }
}

/// The whitespace-separated words of `s`.
pub fn words_of(s: &str) -> (r: Vec<String>)
    ensures
        r.deep_view() == words(s@),
{
    let v = chars_of(s);
    let mut out: Vec<String> = Vec::new();
    let mut i: usize = 0;
    assert(v@.skip(0) =~= v@);
    loop
        invariant
            v@ == s@,
            i <= v@.len(),
            out.deep_view() + words(v@.skip(i as int)) == words(v@),
        decreases v.len() - i,
    {
        let ghost i0 = i;
        while i < v.len() && is_ws_exec(v[i])
            invariant
                v@ == s@,
                i0 <= i <= v@.len(),
                trim_start_ws(v@.skip(i as int)) == trim_start_ws(v@.skip(i0 as int)),
            decreases v.len() - i,
        {
            assert(v@.skip(i as int).skip(1) =~= v@.skip(i + 1));
            i = i + 1;
        }
        let ghost t = v@.skip(i as int);
        assert(trim_start_ws(t) == t);
        assert(words(v@.skip(i0 as int)) == words(t));
        if i == v.len() {
            assert(t.len() == 0);
            assert(out.deep_view() =~= words(v@));
            return out;
        }
        let start = i;
        while i < v.len() && !is_ws_exec(v[i])
            invariant
                v@ == s@,
                start <= i <= v@.len(),
                forall|k: int| start <= k < i ==> !is_ws(#[trigger] v@[k]),
            decreases v.len() - i,
        {
            i = i + 1;
        }
        proof {
            assert forall|j: int| 0 <= j < i - start implies !ws()(#[trigger] t[j]) by {
                assert(t[j] == v@[start + j]);
            }
            if i < v.len() {
                assert(t[i - start] == v@[i as int]);
            }
            lemma_first_index(t, ws(), i - start);
            assert(t.take(i - start) =~= v@.subrange(start as int, i as int));
            assert(t.skip(i - start) =~= v@.skip(i as int));
        }
        let piece = string_from_range(&v, start, i);
        let ghost before = out.deep_view();
        out.push(piece);
        assert(out.deep_view() =~= before.push(piece@));
        assert(out.deep_view() + words(v@.skip(i as int)) =~= words(v@));
    }
}

/// `s` with each `from` character replaced by `to`.
pub open spec fn replace_char(s: Seq<char>, from: char, to: char) -> Seq<char> {
    s.map_values(|x: char| if x == from { to } else { x })
}

/// `s` with each `from` character replaced by `to`.
pub fn replace_char_exec(s: &str, from: char, to: char) -> (r: String)
    ensures
        r@ == replace_char(s@, from, to),
{
    let v = chars_of(s);
    let mut out = String::new();
    let mut i: usize = 0;
    while i < v.len()
        invariant
            v@ == s@,
            i <= v@.len(),
            out@ == replace_char(v@.take(i as int), from, to),
        decreases v.len() - i,
    {
        if v[i] == from {
            push_char(&mut out, to);
        } else {
            push_char(&mut out, v[i]);
        }
        assert(v@.take(i + 1) =~= v@.take(i as int).push(v@[i as int]));
        assert(out@ =~= replace_char(v@.take(i + 1), from, to));
        i = i + 1;
    }
    assert(v@.take(i as int) =~= v@);
    out
}

/// The items of `parts` separated by `sep`; std's `join`.
pub open spec fn join(parts: Seq<Seq<char>>, sep: Seq<char>) -> Seq<char>
    decreases parts.len(),
{
    if parts.len() == 0 {
        seq![]
    } else if parts.len() == 1 {
        parts[0]
    } else {
        join(parts.drop_last(), sep) + sep + parts.last()
    }
}

/// The items of `parts` separated by `sep`.
pub fn join_exec(parts: &Vec<String>, sep: &str) -> (r: String)
    ensures
        r@ == join(parts.deep_view(), sep@),
{
    let mut out = String::new();
    let mut i: usize = 0;
    while i < parts.len()
        invariant
            i <= parts@.len(),
            out@ == join(parts.deep_view().take(i as int), sep@),
        decreases parts.len() - i,
    {
        let ghost pv = parts.deep_view();
        assert(pv.take(i + 1).drop_last() =~= pv.take(i as int));
        if i > 0 {
            push_str(&mut out, sep);
        }
        push_str(&mut out, parts[i].as_str());
        assert(out@ =~= join(pv.take(i + 1), sep@));
        i = i + 1;
    }
    assert(parts.deep_view().take(i as int) =~= parts.deep_view());
    out
}

/// The lower-case hexadecimal digit for `d < 16`.
pub open spec fn hex_char(d: nat) -> char {
    if d < 10 { digit_char(d) } else if d == 10 { 'a' } else if d == 11 { 'b' } else if d == 12 { 'c' }
    else if d == 13 { 'd' } else if d == 14 { 'e' } else { 'f' }
}

/// The last `w` lower-case hexadecimal digits of `n`, most significant first; for
/// `n < 16^w` this is `n` written in hexadecimal and padded with zeros to `w` digits,
/// std's `{:0w$x}`.
pub open spec fn hex_digits(n: nat, w: nat) -> Seq<char>
    decreases w,
{
    if w == 0 {
        seq![]
    } else {
        hex_digits(n / 16, (w - 1) as nat).push(hex_char(n % 16))
    }
}

fn exec_hex_char(d: u128) -> (c: char)
    requires
        d < 16,
    ensures
        c == hex_char(d as nat),
{
    if d < 10 { exec_digit_char(d as u64) } else if d == 10 { 'a' } else if d == 11 { 'b' } else if d == 12 { 'c' }
    else if d == 13 { 'd' } else if d == 14 { 'e' } else { 'f' }
}

/// Appends the last `w` hexadecimal digits of `n` to `s`, zeros in front where `n` has
/// fewer.
pub fn push_hex_digits(s: &mut String, n: u128, w: u32)
    ensures
        final(s)@ == old(s)@ + hex_digits(n as nat, w as nat),
    decreases w,
{
    if w > 0 {
        push_hex_digits(s, n / 16, w - 1);
        push_char(s, exec_hex_char(n % 16));
        assert(old(s)@ + hex_digits(n as nat, w as nat) =~= old(s)@ + hex_digits((n / 16) as nat, (w - 1) as nat) + seq![hex_char((n % 16) as nat)]);
    }
}

} // verus!
