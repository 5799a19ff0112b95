//! Character-level specifications shared by the parsers, and the string
//! routines they rely on: trimming, number reading, searching and joining are
//! verified here; lossy UTF-8 decoding and Unicode lower-casing call `std`.

use vstd::prelude::*;
use vstd::utf8::{decode_utf8, valid_utf8};
use vstd::std_specs::iter::IteratorSpec;
use vstd::string::StrSliceExecFns;
use vstd::string::StringExecFns;

verus! {

/// The text of an optional string.
pub open spec fn opt_text(o: Option<String>) -> Option<Seq<char>> {
    match o {
        Some(s) => Some(s@),
        None => None,
    }
}

/// The Unicode `White_Space` property, the set that `char::is_whitespace` tests.
pub open spec fn is_white_space(c: char) -> bool {
    let u = c as u32;
    ||| 0x9 <= u <= 0xD
    ||| u == 0x20
    ||| u == 0x85
    ||| u == 0xA0
    ||| u == 0x1680
    ||| 0x2000 <= u <= 0x200A
    ||| u == 0x2028
    ||| u == 0x2029
    ||| u == 0x202F
    ||| u == 0x205F
    ||| u == 0x3000
}

/// `s` without its leading white space.
pub open spec fn trim_start_ws(s: Seq<char>) -> Seq<char>
    decreases s.len(),
{
    if s.len() > 0 && is_white_space(s[0]) {
        trim_start_ws(s.drop_first())
    } else {
        s
    }
}

/// `s` without its trailing white space.
pub open spec fn trim_end_ws(s: Seq<char>) -> Seq<char>
    decreases s.len(),
{
    if s.len() > 0 && is_white_space(s.last()) {
        trim_end_ws(s.drop_last())
    } else {
        s
    }
}

/// `s` without leading and trailing white space.
pub open spec fn trim_ws(s: Seq<char>) -> Seq<char> {
    trim_end_ws(trim_start_ws(s))
}

pub open spec fn is_ascii_digit(c: char) -> bool {
    '0' as u32 <= c as u32 <= '9' as u32
}

pub open spec fn all_ascii_digits(s: Seq<char>) -> bool {
    forall|i: int| 0 <= i < s.len() ==> is_ascii_digit(#[trigger] s[i])
}

/// The number that a run of decimal digits denotes.
pub open spec fn decimal_value(s: Seq<char>) -> nat
    decreases s.len(),
{
    if s.len() == 0 {
        0
    } else {
        decimal_value(s.drop_last()) * 10 + ((s.last() as u32 - '0' as u32) as nat)
    }
}

/// What `u64::from_str` accepts: an optional `+`, then one or more decimal
/// digits whose value fits in a `u64`.
pub open spec fn parse_u64_spec(s: Seq<char>) -> Option<u64> {
    let t = if s.len() > 0 && s[0] == '+' {
        s.drop_first()
    } else {
        s
    };
    if t.len() > 0 && all_ascii_digits(t) && decimal_value(t) <= u64::MAX {
        Some(decimal_value(t) as u64)
    } else {
        None
    }
}

/// The text that `String::from_utf8_lossy` produces from some bytes.
pub uninterp spec fn utf8_lossy(bytes: Seq<u8>) -> Seq<char>;

/// The text of some bytes: the characters they encode when they are valid
/// UTF-8, else their lossy decoding.
pub open spec fn line_text(bytes: Seq<u8>) -> Seq<char> {
    if valid_utf8(bytes) {
        decode_utf8(bytes)
    } else {
        utf8_lossy(bytes)
    }
}

/// Calls `String::from_utf8_lossy`. Claimed: the result is the lossy decoding of
/// the bytes, and, where the bytes are valid UTF-8, exactly the characters they
/// encode (invalid sequences become U+FFFD; that case is left to the name).
#[verifier::external_body]
pub(crate) fn from_utf8_lossy(bytes: &[u8]) -> (s: String)
    ensures
        s@ == utf8_lossy(bytes@),
        valid_utf8(bytes@) ==> s@ == decode_utf8(bytes@),
        s@ == line_text(bytes@),
{
    String::from_utf8_lossy(bytes).into_owned()
}

/// Whether `c` has the Unicode `White_Space` property, as `char::is_whitespace`
/// answers.
pub fn white_space(c: char) -> (r: bool)
    ensures
        r == is_white_space(c),
{
    let u = c as u32;
    (0x9 <= u && u <= 0xD) || u == 0x20 || u == 0x85 || u == 0xA0 || u == 0x1680 || (0x2000
        <= u && u <= 0x200A) || u == 0x2028 || u == 0x2029 || u == 0x202F || u == 0x205F || u
        == 0x3000
}

/// Where the leading white space of `s` ends at `k`, dropping it leaves the rest.
proof fn lemma_trim_start_at(s: Seq<char>, k: int)
    requires
        0 <= k <= s.len(),
        forall|j: int| 0 <= j < k ==> is_white_space(#[trigger] s[j]),
        k < s.len() ==> !is_white_space(s[k]),
    ensures
        trim_start_ws(s) == s.subrange(k, s.len() as int),
    decreases k,
{
    if k == 0 {
        assert(s.subrange(0, s.len() as int) =~= s);
    } else {
        let t = s.drop_first();
        assert forall|j: int| 0 <= j < k - 1 implies is_white_space(#[trigger] t[j]) by {
            assert(t[j] == s[j + 1]);
        }
        assert(is_white_space(s[0]));
        lemma_trim_start_at(t, k - 1);
        assert(t.subrange(k - 1, t.len() as int) =~= s.subrange(k, s.len() as int));
    }
}

/// Where the trailing white space of `t` starts at `e`, dropping it leaves the
/// first `e` characters.
proof fn lemma_trim_end_at(t: Seq<char>, e: int)
    requires
        0 <= e <= t.len(),
        forall|j: int| e <= j < t.len() ==> is_white_space(#[trigger] t[j]),
        e > 0 ==> !is_white_space(t[e - 1]),
    ensures
        trim_end_ws(t) == t.subrange(0, e),
    decreases t.len() - e,
{
    if e == t.len() {
        assert(t.subrange(0, e) =~= t);
    } else {
        let u = t.drop_last();
        assert(is_white_space(t[t.len() - 1]));
        assert forall|j: int| e <= j < u.len() implies is_white_space(#[trigger] u[j]) by {
            assert(u[j] == t[j]);
        }
        lemma_trim_end_at(u, e);
        assert(u.subrange(0, e) =~= t.subrange(0, e));
    }
}

/// The end of `v` without its trailing white space, looking no further back than
/// `k`.
fn trailing_start(v: &Vec<char>, k: usize) -> (e: usize)
    requires
        k <= v@.len(),
    ensures
        k <= e <= v@.len(),
        forall|j: int| e <= j < v@.len() ==> is_white_space(#[trigger] v@[j]),
        e > k ==> !is_white_space(v@[e - 1]),
{
    let mut e: usize = v.len();
    while e > k && white_space(v[e - 1])
        invariant
            k <= e <= v@.len(),
            forall|j: int| e <= j < v@.len() ==> is_white_space(#[trigger] v@[j]),
        decreases e,
    {
        e = e - 1;
    }
    e
}

/// `s` without leading and trailing characters of the `White_Space` property,
/// as `str::trim` gives it.
pub fn trim_str(s: &str) -> (r: &str)
    ensures
        r@ == trim_ws(s@),
{
    let v = chars_of(s);
    let len = v.len();
    let mut k: usize = 0;
    while k < len && white_space(v[k])
        invariant
            v@ == s@,
            len == v@.len(),
            k <= len,
            forall|j: int| 0 <= j < k ==> is_white_space(#[trigger] s@[j]),
        decreases len - k,
    {
        k = k + 1;
    }
    let e = trailing_start(&v, k);
    proof {
        lemma_trim_start_at(s@, k as int);
        let t = s@.subrange(k as int, len as int);
        assert forall|j: int| e - k <= j < t.len() implies is_white_space(#[trigger] t[j]) by {
            assert(t[j] == s@[k + j]);
        }
        if e > k {
            assert(t[e - k - 1] == s@[e - 1]);
        }
        lemma_trim_end_at(t, e - k);
        assert(t.subrange(0, e - k) =~= s@.subrange(k as int, e as int));
    }
    s.substring_char(k, e)
}

/// A prefix of a run of characters never denotes more than the whole run.
proof fn lemma_decimal_prefix(t: Seq<char>, m: int)
    requires
        0 <= m <= t.len(),
    ensures
        decimal_value(t.subrange(0, m)) <= decimal_value(t),
    decreases t.len() - m,
{
    if m == t.len() {
        assert(t.subrange(0, m) =~= t);
    } else {
        let u = t.drop_last();
        lemma_decimal_prefix(u, m);
        assert(u.subrange(0, m) =~= t.subrange(0, m));
    }
}

/// The number in `s`, read as `str::parse::<u64>` reads it: an optional `+`,
/// then one or more decimal digits whose value fits in a `u64`; else `None`.
pub fn parse_u64(s: &str) -> (r: Option<u64>)
    ensures
        r == parse_u64_spec(s@),
{
    let v = chars_of(s);
    let len = v.len();
    let start: usize = if len > 0 && v[0] == '+' {
        1
    } else {
        0
    };
    let ghost t = if s@.len() > 0 && s@[0] == '+' {
        s@.drop_first()
    } else {
        s@
    };
    assert(t =~= s@.subrange(start as int, len as int));
    if start == len {
        return None;
    }
    let mut acc: u64 = 0;
    let mut i: usize = start;
    while i < len
        invariant
            v@ == s@,
            len == v@.len(),
            start < len,
            start <= i <= len,
            t == s@.subrange(start as int, len as int),
            t == (if s@.len() > 0 && s@[0] == '+' {
                s@.drop_first()
            } else {
                s@
            }),
            all_ascii_digits(s@.subrange(start as int, i as int)),
            acc == decimal_value(s@.subrange(start as int, i as int)),
        decreases len - i,
    {
        let c = v[i];
        let u = c as u32;
        if u < 48 || u > 57 {
            assert(!is_ascii_digit(t[i - start]));
            return None;
        }
        let d: u64 = (u - 48) as u64;
        let ghost next = s@.subrange(start as int, i + 1);
        proof {
            assert(next.drop_last() =~= s@.subrange(start as int, i as int));
            assert(next.last() == c);
        }
        match acc.checked_mul(10) {
            None => {
                proof {
                    lemma_decimal_prefix(t, i + 1 - start);
                    assert(t.subrange(0, i + 1 - start) =~= next);
                }
                return None;
            },
            Some(m) => match m.checked_add(d) {
                None => {
                    proof {
                        lemma_decimal_prefix(t, i + 1 - start);
                        assert(t.subrange(0, i + 1 - start) =~= next);
                    }
                    return None;
                },
                Some(a) => {
                    acc = a;
                },
            },
        }
        i = i + 1;
    }
    Some(acc)
}

/// The characters of a string, collected into a vector.
pub fn chars_of(s: &str) -> (v: Vec<char>)
    ensures
        v@ == s@,
{
    let n = s.unicode_len();
    let mut v: Vec<char> = Vec::new();
    let mut it = s.chars();
    broadcast use vstd::string::group_string_axioms;
    let mut i: usize = 0;
    while i < n
        invariant
            n == s@.len(),
            i <= n,
            v@ == s@.subrange(0, i as int),
            it.obeys_prophetic_iter_laws(),
            it.remaining() == s@.subrange(i as int, n as int),
        decreases n - i,
    {
        let c = it.next();
        match c {
            Some(ch) => {
                v.push(ch);
            },
            None => {
                assert(false);
            },
        }
        i = i + 1;
        assert(v@ =~= s@.subrange(0, i as int));
        assert(it.remaining() =~= s@.subrange(i as int, n as int));
    }
    assert(v@ =~= s@);
    v
}

/// `s` without trailing characters of the `White_Space` property, as
/// `str::trim_end` gives it.
pub fn trim_end_str(s: &str) -> (r: &str)
    ensures
        r@ == trim_end_ws(s@),
{
    let v = chars_of(s);
    let e = trailing_start(&v, 0);
    proof {
        lemma_trim_end_at(s@, e as int);
    }
    s.substring_char(0, e)
}

/// `i` is the position of the first `c` in `s`.
pub open spec fn first_at(s: Seq<char>, c: char, i: int) -> bool {
    &&& 0 <= i < s.len()
    &&& s[i] == c
    &&& forall|j: int| 0 <= j < i ==> s[j] != c
}

pub proof fn lemma_first_at_unique(s: Seq<char>, c: char, i: int, k: int)
    requires
        first_at(s, c, i),
        first_at(s, c, k),
    ensures
        i == k,
{
    if i < k {
        assert(s[i] != c);
    } else if k < i {
        assert(s[k] != c);
    }
}

/// `v` without one leading space.
pub open spec fn strip_one_space(v: Seq<char>) -> Seq<char> {
    if v.len() > 0 && v[0] == ' ' {
        v.drop_first()
    } else {
        v
    }
}

/// The position of the first `c` in `v`, or `v.len()` when there is none.
pub fn find_first(v: &Vec<char>, c: char) -> (i: usize)
    ensures
        i <= v@.len(),
        i < v@.len() ==> first_at(v@, c, i as int),
        i == v@.len() ==> !v@.contains(c),
        i == v@.len() ==> forall|k: int| !first_at(v@, c, k),
{
    let len = v.len();
    let mut i: usize = 0;
    while i < len && v[i] != c
        invariant
            len == v@.len(),
            i <= len,
            forall|j: int| 0 <= j < i ==> v@[j] != c,
        decreases len - i,
    {
        i = i + 1;
    }
    i
}

/// The first `end` characters of `v` are exactly `word`.
pub fn prefix_is(v: &Vec<char>, end: usize, word: &Vec<char>) -> (r: bool)
    requires
        end <= v@.len(),
    ensures
        r == (v@.subrange(0, end as int) == word@),
{
    if end != word.len() {
        assert(v@.subrange(0, end as int).len() != word@.len());
        return false;
    }
    let mut i: usize = 0;
    while i < end
        invariant
            end == word@.len(),
            end <= v@.len(),
            i <= end,
            forall|j: int| 0 <= j < i ==> v@[j] == word@[j],
        decreases end - i,
    {
        if v[i] != word[i] {
            assert(v@.subrange(0, end as int)[i as int] != word@[i as int]);
            return false;
        }
        i = i + 1;
    }
    assert(v@.subrange(0, end as int) =~= word@);
    true
}

/// The text `s` is exactly `word`.
pub fn str_is(s: &str, word: &Vec<char>) -> (r: bool)
    ensures
        r == (s@ == word@),
{
    let v = chars_of(s);
    let r = prefix_is(&v, v.len(), word);
    assert(v@.subrange(0, v@.len() as int) =~= v@);
    r
}

/// The lines of `lines` joined with one `sep` between neighbours.
pub open spec fn join_with(lines: Seq<Seq<char>>, sep: Seq<char>) -> Seq<char>
    decreases lines.len(),
{
    if lines.len() == 0 {
        Seq::empty()
    } else if lines.len() == 1 {
        lines[0]
    } else {
        join_with(lines.drop_last(), sep) + sep + lines.last()
    }
}

pub open spec fn texts(v: Seq<String>) -> Seq<Seq<char>> {
    v.map_values(|s: String| s@)
}

/// The lines joined with one line break between neighbours, as
/// `[String]::join` with `"\n"` gives them.
pub fn join_lines(lines: &Vec<String>) -> (r: String)
    ensures
        r@ == join_with(texts(lines@), seq!['\n']),
{
    let n = lines.len();
    let mut r = String::new();
    let mut i: usize = 0;
    while i < n
        invariant
            n == lines@.len(),
            i <= n,
            r@ == join_with(texts(lines@).take(i as int), seq!['\n']),
        decreases n - i,
    {
        let ghost t = texts(lines@);
        let ghost before = r@;
        if i > 0 {
            proof {
                reveal_strlit("\n");
            }
            r.append("\n");
        }
        r.append(lines[i].as_str());
        proof {
            assert(t.take(i + 1).drop_last() =~= t.take(i as int));
            assert(t.take(i + 1).last() == lines@[i as int]@);
            if i == 0 {
                assert(r@ =~= t.take(1)[0]);
            } else {
                assert(r@ =~= before + seq!['\n'] + lines@[i as int]@);
            }
        }
        i = i + 1;
    }
    assert(texts(lines@).take(n as int) =~= texts(lines@));
    r
}

/// The characters of `v` from `start` on begin with `word`.
pub fn window_is(v: &Vec<char>, start: usize, word: &Vec<char>) -> (r: bool)
    requires
        start + word@.len() <= v@.len(),
    ensures
        r == (v@.subrange(start as int, start + word@.len()) == word@),
{
    let n = word.len();
    let vl = v.len();
    let mut i: usize = 0;
    while i < n
        invariant
            n == word@.len(),
            vl == v@.len(),
            start + n <= v@.len(),
            i <= n,
            forall|j: int| 0 <= j < i ==> v@[start + j] == word@[j],
        decreases n - i,
    {
        if v[start + i] != word[i] {
            assert(v@.subrange(start as int, start + n)[i as int] != word@[i as int]);
            return false;
        }
        i = i + 1;
    }
    assert(v@.subrange(start as int, start + n) =~= word@);
    true
}

/// Whether `pat` occurs in `s` as a run of consecutive characters, the test
/// that `str::contains` makes with a string pattern.
pub fn contains_str(s: &str, pat: &str) -> (r: bool)
    ensures
        r == occurs_in(pat@, s@),
{
    let v = chars_of(s);
    let p = chars_of(pat);
    let len = v.len();
    let plen = p.len();
    if plen > len {
        assert forall|i: int| 0 <= i && i + pat@.len() <= s@.len() implies
            #[trigger] s@.subrange(i, i + pat@.len()) != pat@ by {}
        return false;
    }
    let last = len - plen;
    let mut i: usize = 0;
    while i < last
        invariant
            v@ == s@,
            p@ == pat@,
            len == v@.len(),
            plen == p@.len(),
            last + plen == len,
            i <= last,
            forall|j: int| 0 <= j < i ==> #[trigger] s@.subrange(j, j + pat@.len()) != pat@,
        decreases last - i,
    {
        if window_is(&v, i, &p) {
            return true;
        }
        i = i + 1;
    }
    if window_is(&v, last, &p) {
        return true;
    }
    assert forall|j: int| 0 <= j && j + pat@.len() <= s@.len() implies
        #[trigger] s@.subrange(j, j + pat@.len()) != pat@ by {
        if j < last {
            assert(j < i);
        }
    }
    false
}

/// `pat` occurs in `s` as a run of consecutive characters.
pub open spec fn occurs_in(pat: Seq<char>, s: Seq<char>) -> bool {
    exists|i: int| 0 <= i && i + pat.len() <= s.len() && #[trigger] s.subrange(i, i + pat.len()) == pat
}

/// What `str::to_lowercase` makes of a text.
pub uninterp spec fn lowercase(s: Seq<char>) -> Seq<char>;

/// Calls `str::to_lowercase`. Claimed: the result is the name `lowercase` of the
/// text (the Unicode lower-case mapping, which this file does not spell out).
#[verifier::external_body]
pub(crate) fn to_lowercase(s: &str) -> (r: String)
    ensures
        r@ == lowercase(s@),
{
    s.to_lowercase()
}

} // verus!
