//! Text helpers shared by the rest of the crate: decimal rendering of
//! integers and building strings one character at a time.

use vstd::prelude::*;
use vstd::utf8::*;
use vstd::string::*;

verus! {

/// The ASCII digit for a value below ten.
pub open spec fn digit_char(d: nat) -> char {
    ((d + 48) as u32) as char
}

/// Decimal digits of a natural number, most significant first, no padding.
pub open spec fn dec_digits(n: nat) -> Seq<char>
    decreases n,
{
    if n < 10 {
        seq![digit_char(n)]
    } else {
        dec_digits(n / 10) + seq![digit_char(n % 10)]
    }
}

/// Decimal rendering of a signed integer, as `{}` prints it.
pub open spec fn signed_dec(n: int) -> Seq<char> {
    if n < 0 {
        seq!['-'] + dec_digits((-n) as nat)
    } else {
        dec_digits(n as nat)
    }
}

/// Decimal rendering zero-padded to width two, as `{:02}` prints it.
pub open spec fn pad2(n: int) -> Seq<char> {
    if 0 <= n < 10 {
        seq!['0'] + dec_digits(n as nat)
    } else {
        signed_dec(n)
    }
}

/// Appends one character to a string (`String::push`).
#[verifier::external_body]
pub(crate) fn push_char(s: &mut String, c: char)
    ensures
        final(s)@ == old(s)@.push(c),
{
    s.push(c);
}

fn digit(d: u64) -> (c: char)
    requires
        d < 10,
    ensures
        c == digit_char(d as nat),
{
    let b: u8 = 48u8 + d as u8;
    b as char
}

/// Decimal rendering of an unsigned integer.
pub fn u64_to_decimal(n: u64) -> (s: String)
    ensures
        s@ == dec_digits(n as nat),
    decreases n,
{
    if n < 10 {
        let mut s = String::new();
        push_char(&mut s, digit(n));
        assert(s@ =~= dec_digits(n as nat));
        s
    } else {
        let mut s = u64_to_decimal(n / 10);
        push_char(&mut s, digit(n % 10));
        assert(s@ =~= dec_digits(n as nat));
        s
    }
}

/// Decimal rendering of a signed integer, as `{}` prints it.
pub fn i64_to_decimal(n: i64) -> (s: String)
    ensures
        s@ == signed_dec(n as int),
{
    if n < 0 {
        let m: u64 = if n == i64::MIN {
            9223372036854775808u64
        } else {
            (-n) as u64
        };
        let mut s = String::new();
        push_char(&mut s, '-');
        let d = u64_to_decimal(m);
        s.append(d.as_str());
        assert(s@ =~= signed_dec(n as int));
        s
    } else {
        u64_to_decimal(n as u64)
    }
}

/// Rendering zero-padded to width two, as `format!("{:02}", n)` prints it.
pub fn i64_pad2(n: i64) -> (s: String)
    ensures
        s@ == pad2(n as int),
{
    if 0 <= n && n < 10 {
        let mut s = String::new();
        push_char(&mut s, '0');
        push_char(&mut s, digit(n as u64));
        assert(dec_digits(n as nat) =~= seq![digit_char(n as nat)]);
        assert(s@ =~= pad2(n as int));
        s
    } else {
        i64_to_decimal(n)
    }
}

/// String equality by content.
pub fn str_eq(a: &str, b: &str) -> (r: bool)
    ensures
        r == (a@ == b@),
{
    let x = a.as_bytes();
    let y = b.as_bytes();
    proof {
        encode_utf8_decode_utf8(a@);
        encode_utf8_decode_utf8(b@);
    }
    if x.len() != y.len() {
        return false;
    }
    let mut i: usize = 0;
    while i < x.len()
        invariant
            x@.len() == y@.len(),
            x@ == a.spec_bytes(),
            y@ == b.spec_bytes(),
            i <= x@.len(),
            forall|j: int| 0 <= j < i ==> x@[j] == y@[j],
        decreases x@.len() - i,
    {
        if x[i] != y[i] {
            return false;
        }
        i += 1;
    }
    assert(x@ =~= y@);
    true
}

/// Copies a string slice into an owned string.
pub fn to_owned_string(s: &str) -> (r: String)
    ensures
        r@ == s@,
{
    String::from_str(s)
}

/// The characters of a string slice, in order.
pub fn chars_vec(s: &str) -> (v: Vec<char>)
    ensures
        v@ == s@,
{
    broadcast use vstd::string::axiom_spec_iter;
    let mut v: Vec<char> = Vec::new();
    for c in it: s.chars()
        invariant
            v@ == it.seq().take(it.index() as int),
    {
        v.push(c);
    }
    assert(v@ =~= s@);
    v
}

/// A string holding the given characters.
pub fn string_from_chars(v: &[char]) -> (s: String)
    ensures
        s@ == v@,
{
    let mut s = String::new();
    let mut i: usize = 0;
    while i < v.len()
        invariant
            i <= v@.len(),
            s@ == v@.subrange(0, i as int),
        decreases v@.len() - i,
    {
        push_char(&mut s, v[i]);
        i += 1;
    }
    assert(s@ =~= v@);
    s
}

/// Unicode `White_Space`, the property `char::is_whitespace` tests.
pub open spec fn is_ws(c: char) -> bool {
    let u = c as u32;
    ||| 0x9 <= u <= 0xD
    ||| u == 0x20
    ||| u == 0x85
    ||| u == 0xA0
    ||| u == 0x1680
    ||| 0x2000 <= u <= 0x200A
    ||| u == 0x2028
    ||| u == 0x2029
    ||| u == 0x202F
    ||| u == 0x205F
    ||| u == 0x3000
}

/// Whether a character has the Unicode `White_Space` property.
pub fn is_whitespace(c: char) -> (r: bool)
    ensures
        r == is_ws(c),
{
    let u = c as u32;
    (0x9 <= u && u <= 0xD) || u == 0x20 || u == 0x85 || u == 0xA0 || u == 0x1680 || (0x2000 <= u
        && u <= 0x200A) || u == 0x2028 || u == 0x2029 || u == 0x202F || u == 0x205F || u == 0x3000
}

/// Leading white space removed.
pub open spec fn trim_start_seq(s: Seq<char>) -> Seq<char>
    decreases s.len(),
{
    if s.len() > 0 && is_ws(s[0]) {
        trim_start_seq(s.drop_first())
    } else {
        s
    }
}

/// Trailing white space removed.
pub open spec fn trim_end_seq(s: Seq<char>) -> Seq<char>
    decreases s.len(),
{
    if s.len() > 0 && is_ws(s.last()) {
        trim_end_seq(s.drop_last())
    } else {
        s
    }
}

/// Leading and trailing white space removed, as `str::trim` does.
pub open spec fn trim_seq(s: Seq<char>) -> Seq<char> {
    trim_end_seq(trim_start_seq(s))
}

/// Index of the first non-white-space character at or after `i`.
fn skip_ws_forward(v: &Vec<char>, i: usize) -> (j: usize)
    requires
        i <= v@.len(),
    ensures
        i <= j <= v@.len(),
        trim_start_seq(v@.subrange(i as int, v@.len() as int)) == v@.subrange(j as int, v@.len() as int),
        j < v@.len() ==> !is_ws(v@[j as int]),
    decreases v@.len() - i,
{
    if i < v.len() && is_whitespace(v[i]) {
        let ghost s = v@.subrange(i as int, v@.len() as int);
        assert(s.drop_first() =~= v@.subrange(i + 1, v@.len() as int));
        skip_ws_forward(v, i + 1)
    } else {
        i
    }
}

/// End (exclusive) after dropping white space that precedes `j`, not going below `lo`.
fn skip_ws_backward(v: &Vec<char>, lo: usize, j: usize) -> (k: usize)
    requires
        lo <= j <= v@.len(),
    ensures
        lo <= k <= j,
        trim_end_seq(v@.subrange(lo as int, j as int)) == v@.subrange(lo as int, k as int),
    decreases j - lo,
{
    if j > lo && is_whitespace(v[j - 1]) {
        let ghost s = v@.subrange(lo as int, j as int);
        assert(s.drop_last() =~= v@.subrange(lo as int, j - 1));
        skip_ws_backward(v, lo, j - 1)
    } else {
        j
    }
}

/// `str::trim`, returning an owned string.
pub fn trim(s: &str) -> (r: String)
    ensures
        r@ == trim_seq(s@),
{
    let v = chars_vec(s);
    let start = skip_ws_forward(&v, 0);
    assert(v@.subrange(0, v@.len() as int) =~= v@);
    let end = skip_ws_backward(&v, start, v.len());
    let mut out: Vec<char> = Vec::new();
    let mut i: usize = start;
    while i < end
        invariant
            start <= i <= end,
            end <= v@.len(),
            out@ == v@.subrange(start as int, i as int),
        decreases end - i,
    {
        out.push(v[i]);
        i += 1;
    }
    string_from_chars(out.as_slice())
}

/// Each character followed by `rep`.
pub open spec fn after_each(s: Seq<char>, rep: Seq<char>) -> Seq<char>
    decreases s.len(),
{
    if s.len() == 0 {
        Seq::empty()
    } else {
        after_each(s.drop_last(), rep) + seq![s.last()] + rep
    }
}

/// `str::replace`: every occurrence of a non-empty pattern, scanning left
/// to right without overlaps, is replaced; the empty pattern occurs before
/// every character and at the end.
pub open spec fn replace_seq(s: Seq<char>, pat: Seq<char>, rep: Seq<char>) -> Seq<char>
    decreases s.len(),
{
    if pat.len() == 0 {
        rep + after_each(s, rep)
    } else if s.len() < pat.len() {
        s
    } else if s.subrange(0, pat.len() as int) == pat {
        rep + replace_seq(s.subrange(pat.len() as int, s.len() as int), pat, rep)
    } else {
        seq![s[0]] + replace_seq(s.drop_first(), pat, rep)
    }
}

fn matches_at(v: &Vec<char>, i: usize, p: &Vec<char>) -> (r: bool)
    requires
        i <= v@.len(),
    ensures
        r == (v@.len() - i >= p@.len() && v@.subrange(i as int, i + p@.len()) == p@),
{
    let n = v.len();
    if n - i < p.len() {
        return false;
    }
    let mut k: usize = 0;
    while k < p.len()
        invariant
            n == v@.len(),
            i + p@.len() <= v@.len(),
            k <= p@.len(),
            forall|j: int| 0 <= j < k ==> v@[i + j] == p@[j],
        decreases p@.len() - k,
    {
        if v[i + k] != p[k] {
            assert(v@.subrange(i as int, i + p@.len())[k as int] != p@[k as int]);
            return false;
        }
        k += 1;
    }
    assert(v@.subrange(i as int, i + p@.len()) =~= p@);
    true
}

/// `str::replace`, the empty pattern included.
pub fn replace_all(s: &str, pat: &str, rep: &str) -> (r: String)
    ensures
        r@ == replace_seq(s@, pat@, rep@),
{
    let v = chars_vec(s);
    let p = chars_vec(pat);
    if p.len() == 0 {
        let mut out = String::from_str(rep);
        let mut i: usize = 0;
        while i < v.len()
            invariant
                v@ == s@,
                i <= v@.len(),
                out@ == rep@ + after_each(v@.subrange(0, i as int), rep@),
            decreases v@.len() - i,
        {
            let ghost before = out@;
            push_char(&mut out, v[i]);
            out.append(rep);
            assert(v@.subrange(0, i + 1).drop_last() =~= v@.subrange(0, i as int));
            assert(out@ =~= rep@ + after_each(v@.subrange(0, i + 1), rep@));
            i += 1;
        }
        assert(v@.subrange(0, v@.len() as int) =~= v@);
        return out;
    }
    let mut out = String::new();
    let mut i: usize = 0;
    assert(v@.subrange(0, v@.len() as int) =~= v@);
    assert(out@ + replace_seq(v@, p@, rep@) =~= replace_seq(v@, p@, rep@));
    while i < v.len()
        invariant
            p@ == pat@,
            v@ == s@,
            p@.len() > 0,
            i <= v@.len(),
            out@ + replace_seq(v@.subrange(i as int, v@.len() as int), p@, rep@) == replace_seq(s@, pat@, rep@),
        decreases v@.len() - i,
    {
        let ghost rest = v@.subrange(i as int, v@.len() as int);
        if matches_at(&v, i, &p) {
            assert(rest.subrange(0, p@.len() as int) =~= v@.subrange(i as int, i + p@.len()));
            assert(rest.subrange(p@.len() as int, rest.len() as int) =~= v@.subrange(i + p@.len(), v@.len() as int));
            let ghost before = out@;
            out.append(rep);
            assert(before + (rep@ + replace_seq(v@.subrange(i + p@.len(), v@.len() as int), p@, rep@)) =~= out@ + replace_seq(v@.subrange(i + p@.len(), v@.len() as int), p@, rep@));
            i = i + p.len();
        } else {
            proof {
                if rest.len() >= p@.len() {
                    assert(rest.subrange(0, p@.len() as int) =~= v@.subrange(i as int, i + p@.len()));
                }
            }
            assert(rest.drop_first() =~= v@.subrange(i + 1, v@.len() as int));
            let ghost before = out@;
            push_char(&mut out, v[i]);
            assert(before + (seq![v@[i as int]] + replace_seq(rest.drop_first(), p@, rep@)) =~= out@ + replace_seq(rest.drop_first(), p@, rep@));
            i = i + 1;
        }
    }
    assert(v@.subrange(i as int, v@.len() as int) =~= Seq::<char>::empty());
    assert(out@ + Seq::<char>::empty() =~= out@);
    out
}

/// Trailing occurrences of `c` removed, as `str::trim_end_matches(c)` does.
pub open spec fn trim_end_char(s: Seq<char>, c: char) -> Seq<char>
    decreases s.len(),
{
    if s.len() > 0 && s.last() == c {
        trim_end_char(s.drop_last(), c)
    } else {
        s
    }
}

/// `str::trim_end_matches` with a single character.
pub fn trim_end_matches_char(s: &str, c: char) -> (r: String)
    ensures
        r@ == trim_end_char(s@, c),
{
    let v = chars_vec(s);
    let mut end: usize = v.len();
    assert(v@.subrange(0, v@.len() as int) =~= v@);
    while end > 0 && v[end - 1] == c
        invariant
            end <= v@.len(),
            trim_end_char(v@.subrange(0, end as int), c) == trim_end_char(s@, c),
            v@ == s@,
        decreases end,
    {
        assert(v@.subrange(0, end as int).drop_last() =~= v@.subrange(0, end - 1));
        end -= 1;
    }
    assert(v@.subrange(0, v@.len() as int) =~= v@);
    let mut out: Vec<char> = Vec::new();
    let mut i: usize = 0;
    while i < end
        invariant
            end <= v@.len(),
            i <= end,
            out@ == v@.subrange(0, i as int),
        decreases end - i,
    {
        out.push(v[i]);
        i += 1;
    }
    string_from_chars(out.as_slice())
}

/// `str::to_lowercase`: the Unicode lower-case mapping of a string.
pub uninterp spec fn unicode_lowercase(s: Seq<char>) -> Seq<char>;

/// `char::is_alphanumeric`: Unicode `Alphabetic` or `Numeric`.
pub uninterp spec fn unicode_alphanumeric(c: char) -> bool;

/// Every character is ASCII.
pub open spec fn is_ascii_seq(s: Seq<char>) -> bool {
    forall|i: int| 0 <= i < s.len() ==> (#[trigger] s[i] as u32) < 128
}

/// ASCII lower-casing of one character: `A`..=`Z` become `a`..=`z`.
pub open spec fn ascii_lower_char(c: char) -> char {
    if 65 <= (c as u32) <= 90 { ((c as u32) + 32) as char } else { c }
}

/// ASCII lower-casing of every character.
pub open spec fn ascii_lower(s: Seq<char>) -> Seq<char> {
    Seq::new(s.len(), |i: int| ascii_lower_char(s[i]))
}

/// `str::to_lowercase`, Unicode's lower-case mapping of the whole string.
/// On ASCII text that mapping is the ASCII one (`A`..=`Z` to `a`..=`z`,
/// everything else kept), as std documents for `char::to_lowercase`;
/// beyond ASCII the result is only named.
#[verifier::external_body]
pub(crate) fn to_lowercase(s: &str) -> (r: String)
    ensures
        r@ == unicode_lowercase(s@),
        is_ascii_seq(s@) ==> r@ == ascii_lower(s@),
{
    s.to_lowercase()
}

/// `char::is_alphanumeric`: alphabetic or numeric in Unicode's sense; on
/// ASCII, exactly the letters and the digits.
#[verifier::external_body]
pub(crate) fn is_alphanumeric(c: char) -> (r: bool)
    ensures
        r == unicode_alphanumeric(c),
        (c as u32) < 128 ==> r == (48 <= (c as u32) <= 57 || 65 <= (c as u32) <= 90 || 97 <= (c as u32) <= 122),
{
    c.is_alphanumeric()
}

/// `needle` occurs in `hay` starting at index `i`.
pub open spec fn occurs_at(hay: Seq<char>, needle: Seq<char>, i: int) -> bool {
    0 <= i && i + needle.len() <= hay.len() && hay.subrange(i, i + needle.len()) == needle
}

/// `needle` occurs somewhere in `hay` (the empty needle always does).
pub open spec fn contains_seq(hay: Seq<char>, needle: Seq<char>) -> bool {
    exists|i: int| #[trigger] occurs_at(hay, needle, i)
}

/// `str::contains` with a string pattern.
pub fn str_contains(hay: &str, needle: &str) -> (r: bool)
    ensures
        r == contains_seq(hay@, needle@),
{
    let h = chars_vec(hay);
    let n = chars_vec(needle);
    if n.len() > h.len() {
        assert forall|i: int| !occurs_at(hay@, needle@, i) by {}
        return false;
    }
    if n.len() == 0 {
        assert(hay@.subrange(0, 0) =~= needle@);
        assert(occurs_at(hay@, needle@, 0));
        return true;
    }
    let bound = h.len() - n.len() + 1;
    let mut i: usize = 0;
    while i < bound
        invariant
            h@ == hay@,
            n@ == needle@,
            n@.len() > 0,
            bound == h@.len() - n@.len() + 1,
            i <= bound,
            forall|j: int| 0 <= j < i ==> !occurs_at(hay@, needle@, j),
        decreases bound - i,
    {
        if matches_at(&h, i, &n) {
            assert(occurs_at(hay@, needle@, i as int));
            return true;
        }
        i += 1;
    }
    assert forall|j: int| !occurs_at(hay@, needle@, j) by {
        if 0 <= j && j + needle@.len() <= hay@.len() {
            assert(j < bound);
        }
    }
    false
}

/// `needle` is a prefix of `hay`.
pub open spec fn starts_with_seq(hay: Seq<char>, needle: Seq<char>) -> bool {
    needle.len() <= hay.len() && hay.subrange(0, needle.len() as int) == needle
}

/// `str::starts_with` with a string pattern.
pub fn str_starts_with(hay: &str, needle: &str) -> (r: bool)
    ensures
        r == starts_with_seq(hay@, needle@),
{
    let h = chars_vec(hay);
    let n = chars_vec(needle);
    matches_at(&h, 0, &n)
}

/// `str::strip_prefix` with a string pattern: the rest of `hay` after
/// `prefix`, or `None` when `hay` does not start with it.
pub fn strip_prefix(hay: &str, prefix: &str) -> (r: Option<String>)
    ensures
        match r {
            Some(t) => starts_with_seq(hay@, prefix@) && t@ == hay@.subrange(prefix@.len() as int, hay@.len() as int),
            None => !starts_with_seq(hay@, prefix@),
        },
{
    let h = chars_vec(hay);
    let n = chars_vec(prefix);
    if !matches_at(&h, 0, &n) {
        return None;
    }
    let mut rest: Vec<char> = Vec::new();
    let mut i: usize = n.len();
    while i < h.len()
        invariant
            n@.len() <= i <= h@.len(),
            rest@ == h@.subrange(n@.len() as int, i as int),
        decreases h@.len() - i,
    {
        rest.push(h[i]);
        i += 1;
    }
    Some(string_from_chars(rest.as_slice()))
}

/// Elements of `list` joined with `sep` between them.
pub open spec fn seq_join(list: Seq<Seq<char>>, sep: Seq<char>) -> Seq<char>
    decreases list.len(),
{
    if list.len() == 0 {
        Seq::empty()
    } else if list.len() == 1 {
        list[0]
    } else {
        seq_join(list.drop_last(), sep) + sep + list.last()
    }
}

/// The views of a list of strings.
pub open spec fn views(v: Seq<String>) -> Seq<Seq<char>> {
    Seq::new(v.len(), |i: int| v[i]@)
}

/// `[String]::join(sep)`.
pub fn join_strings(list: &[String], sep: &str) -> (r: String)
    ensures
        r@ == seq_join(views(list@), sep@),
{
    let mut r = String::new();
    let mut i: usize = 0;
    while i < list.len()
        invariant
            i <= list@.len(),
            r@ == seq_join(views(list@.subrange(0, i as int)), sep@),
        decreases list@.len() - i,
    {
        let ghost prev = views(list@.subrange(0, i as int));
        if i > 0 {
            r.append(sep);
        }
        r.append(list[i].as_str());
        proof {
            let next = views(list@.subrange(0, i + 1));
            assert(next.drop_last() =~= prev);
            assert(next.last() == list@[i as int]@);
            if i == 0 {
                assert(next.len() == 1);
            }
        }
        i += 1;
    }
    assert(list@.subrange(0, list@.len() as int) =~= list@);
    r
}

/// Words of `s` after the partial word `cur`, as `str::split_whitespace`
/// yields them: runs of non-white-space characters.
pub open spec fn words_acc(s: Seq<char>, cur: Seq<char>) -> Seq<Seq<char>>
    decreases s.len(),
{
    if s.len() == 0 {
        if cur.len() > 0 { seq![cur] } else { Seq::empty() }
    } else if is_ws(s[0]) {
        (if cur.len() > 0 { seq![cur] } else { Seq::empty() }) + words_acc(s.drop_first(), Seq::empty())
    } else {
        words_acc(s.drop_first(), cur.push(s[0]))
    }
}

/// `str::split_whitespace`.
pub open spec fn words(s: Seq<char>) -> Seq<Seq<char>> {
    words_acc(s, Seq::empty())
}

/// Pieces of `s` after the partial piece `cur`, split at every character
/// that is not alphanumeric (empty pieces included), as
/// `str::split(|c: char| !c.is_alphanumeric())` yields them.
pub open spec fn alnum_pieces_acc(s: Seq<char>, cur: Seq<char>) -> Seq<Seq<char>>
    decreases s.len(),
{
    if s.len() == 0 {
        seq![cur]
    } else if !unicode_alphanumeric(s[0]) {
        seq![cur] + alnum_pieces_acc(s.drop_first(), Seq::empty())
    } else {
        alnum_pieces_acc(s.drop_first(), cur.push(s[0]))
    }
}

pub open spec fn alnum_pieces(s: Seq<char>) -> Seq<Seq<char>> {
    alnum_pieces_acc(s, Seq::empty())
}

/// `str::split_whitespace`, collected.
pub fn split_whitespace(s: &str) -> (r: Vec<String>)
    ensures
        views(r@) == words(s@),
{
    let v = chars_vec(s);
    let mut out: Vec<String> = Vec::new();
    let mut cur: Vec<char> = Vec::new();
    let mut i: usize = 0;
    assert(v@.subrange(0, v@.len() as int) =~= v@);
    assert(views(out@) + words(s@) =~= words(s@));
    assert(cur@ =~= Seq::<char>::empty());
    while i < v.len()
        invariant
            v@ == s@,
            i <= v@.len(),
            views(out@) + words_acc(v@.subrange(i as int, v@.len() as int), cur@) == words(s@),
        decreases v@.len() - i,
    {
        let ghost rest = v@.subrange(i as int, v@.len() as int);
        assert(rest.drop_first() =~= v@.subrange(i + 1, v@.len() as int));
        if is_whitespace(v[i]) {
            if cur.len() > 0 {
                let w = string_from_chars(cur.as_slice());
                let ghost before = views(out@);
                out.push(w);
                assert(views(out@) =~= before.push(w@));
                assert(views(out@) + words_acc(rest.drop_first(), Seq::empty()) =~= before + (seq![cur@] + words_acc(rest.drop_first(), Seq::empty())));
            } else {
                assert(Seq::<Seq<char>>::empty() + words_acc(rest.drop_first(), Seq::empty()) =~= words_acc(rest.drop_first(), Seq::empty()));
            }
            cur = Vec::new();
        } else {
            cur.push(v[i]);
        }
        i += 1;
    }
    let ghost rest = v@.subrange(i as int, v@.len() as int);
    assert(rest =~= Seq::<char>::empty());
    if cur.len() > 0 {
        let w = string_from_chars(cur.as_slice());
        let ghost before = views(out@);
        out.push(w);
        assert(views(out@) =~= before + seq![w@]);
    } else {
        assert(views(out@) + Seq::<Seq<char>>::empty() =~= views(out@));
    }
    out
}

/// `str::split(|c: char| !c.is_alphanumeric())`, collected.
pub fn split_non_alphanumeric(s: &str) -> (r: Vec<String>)
    ensures
        views(r@) == alnum_pieces(s@),
{
    let v = chars_vec(s);
    let mut out: Vec<String> = Vec::new();
    let mut cur: Vec<char> = Vec::new();
    let mut i: usize = 0;
    assert(v@.subrange(0, v@.len() as int) =~= v@);
    assert(views(out@) + alnum_pieces(s@) =~= alnum_pieces(s@));
    assert(cur@ =~= Seq::<char>::empty());
    while i < v.len()
        invariant
            v@ == s@,
            i <= v@.len(),
            views(out@) + alnum_pieces_acc(v@.subrange(i as int, v@.len() as int), cur@) == alnum_pieces(s@),
        decreases v@.len() - i,
    {
        let ghost rest = v@.subrange(i as int, v@.len() as int);
        assert(rest.drop_first() =~= v@.subrange(i + 1, v@.len() as int));
        if !is_alphanumeric(v[i]) {
            let w = string_from_chars(cur.as_slice());
            let ghost before = views(out@);
            out.push(w);
            assert(views(out@) =~= before.push(w@));
            assert(views(out@) + alnum_pieces_acc(rest.drop_first(), Seq::empty()) =~= before + (seq![cur@] + alnum_pieces_acc(rest.drop_first(), Seq::empty())));
            cur = Vec::new();
        } else {
            cur.push(v[i]);
        }
        i += 1;
    }
    let ghost rest = v@.subrange(i as int, v@.len() as int);
    assert(rest =~= Seq::<char>::empty());
    let w = string_from_chars(cur.as_slice());
    let ghost before = views(out@);
    out.push(w);
    assert(views(out@) =~= before + seq![w@]);
    out
}

/// `str::trim_end`, returning an owned string.
pub fn trim_end(s: &str) -> (r: String)
    ensures
        r@ == trim_end_seq(s@),
{
    let v = chars_vec(s);
    assert(v@.subrange(0, v@.len() as int) =~= v@);
    let end = skip_ws_backward(&v, 0, v.len());
    let mut out: Vec<char> = Vec::new();
    let mut i: usize = 0;
    while i < end
        invariant
            i <= end,
            end <= v@.len(),
            out@ == v@.subrange(0, i as int),
        decreases end - i,
    {
        out.push(v[i]);
        i += 1;
    }
    string_from_chars(out.as_slice())
}

/// The first `n` characters (all of them when there are fewer).
pub fn take_chars(s: &str, n: usize) -> (r: String)
    ensures
        r@ == if s@.len() <= n { s@ } else { s@.subrange(0, n as int) },
{
    let v = chars_vec(s);
    let end = if v.len() <= n { v.len() } else { n };
    let mut out: Vec<char> = Vec::new();
    let mut i: usize = 0;
    while i < end
        invariant
            i <= end,
            end <= v@.len(),
            out@ == v@.subrange(0, i as int),
        decreases end - i,
    {
        out.push(v[i]);
        i += 1;
    }
    assert(v@.subrange(0, v@.len() as int) =~= v@);
    string_from_chars(out.as_slice())
}

/// Some needle occurs in `hay`.
pub open spec fn any_in(hay: Seq<char>, needles: Seq<Seq<char>>) -> bool {
    exists|i: int| 0 <= i < needles.len() && #[trigger] contains_seq(hay, needles[i])
}

/// The views of a slice of string slices.
pub open spec fn str_views(v: Seq<&str>) -> Seq<Seq<char>> {
    Seq::new(v.len(), |i: int| v[i]@)
}

/// Whether any of the needles occurs in the haystack.
pub fn contains_any(haystack: &str, needles: &[&str]) -> (r: bool)
    ensures
        r == any_in(haystack@, str_views(needles@)),
{
    let mut i: usize = 0;
    while i < needles.len()
        invariant
            i <= needles@.len(),
            forall|j: int| 0 <= j < i ==> !contains_seq(haystack@, #[trigger] str_views(needles@)[j]),
        decreases needles@.len() - i,
    {
        if str_contains(haystack, needles[i]) {
            assert(contains_seq(haystack@, str_views(needles@)[i as int]));
            return true;
        }
        i += 1;
    }
    false
}

/// Whether `s` is one of the strings of `list`.
pub fn str_in_list(s: &str, list: &[&str]) -> (r: bool)
    ensures
        r == str_views(list@).contains(s@),
{
    let mut i: usize = 0;
    while i < list.len()
        invariant
            i <= list@.len(),
            forall|j: int| 0 <= j < i ==> str_views(list@)[j] != s@,
        decreases list@.len() - i,
    {
        if str_eq(list[i], s) {
            assert(str_views(list@)[i as int] == s@);
            return true;
        }
        i += 1;
    }
    assert forall|j: int| 0 <= j < str_views(list@).len() implies str_views(list@)[j] != s@ by {}
    false
}

/// Pieces of `s` after the partial piece `cur`, split at every `sep`
/// (empty pieces included), as `str::split(sep)` yields them.
pub open spec fn char_pieces_acc(s: Seq<char>, sep: char, cur: Seq<char>) -> Seq<Seq<char>>
    decreases s.len(),
{
    if s.len() == 0 {
        seq![cur]
    } else if s[0] == sep {
        seq![cur] + char_pieces_acc(s.drop_first(), sep, Seq::empty())
    } else {
        char_pieces_acc(s.drop_first(), sep, cur.push(s[0]))
    }
}

pub open spec fn char_pieces(s: Seq<char>, sep: char) -> Seq<Seq<char>> {
    char_pieces_acc(s, sep, Seq::empty())
}

/// `str::split(sep)` for a character separator, collected.
pub fn split_on_char(s: &str, sep: char) -> (r: Vec<String>)
    ensures
        views(r@) == char_pieces(s@, sep),
{
    let v = chars_vec(s);
    let mut out: Vec<String> = Vec::new();
    let mut cur: Vec<char> = Vec::new();
    let mut i: usize = 0;
    assert(v@.subrange(0, v@.len() as int) =~= v@);
    assert(views(out@) + char_pieces(s@, sep) =~= char_pieces(s@, sep));
    assert(cur@ =~= Seq::<char>::empty());
    while i < v.len()
        invariant
            v@ == s@,
            i <= v@.len(),
            views(out@) + char_pieces_acc(v@.subrange(i as int, v@.len() as int), sep, cur@) == char_pieces(s@, sep),
        decreases v@.len() - i,
    {
        let ghost rest = v@.subrange(i as int, v@.len() as int);
        assert(rest.drop_first() =~= v@.subrange(i + 1, v@.len() as int));
        if v[i] == sep {
            let w = string_from_chars(cur.as_slice());
            let ghost before = views(out@);
            out.push(w);
            assert(views(out@) =~= before.push(w@));
            assert(views(out@) + char_pieces_acc(rest.drop_first(), sep, Seq::empty()) =~= before + (seq![cur@] + char_pieces_acc(rest.drop_first(), sep, Seq::empty())));
            cur = Vec::new();
        } else {
            cur.push(v[i]);
        }
        i += 1;
    }
    let ghost rest = v@.subrange(i as int, v@.len() as int);
    assert(rest =~= Seq::<char>::empty());
    let w = string_from_chars(cur.as_slice());
    let ghost before = views(out@);
    out.push(w);
    assert(views(out@) =~= before + seq![w@]);
    out
}

/// `str::trim_start_matches` with a string pattern: leading copies of a
/// non-empty `pat` removed.
pub open spec fn strip_prefixes(s: Seq<char>, pat: Seq<char>) -> Seq<char>
    decreases s.len(),
{
    if pat.len() > 0 && starts_with_seq(s, pat) {
        strip_prefixes(s.subrange(pat.len() as int, s.len() as int), pat)
    } else {
        s
    }
}

pub fn trim_start_matches(s: &str, pat: &str) -> (r: String)
    ensures
        r@ == strip_prefixes(s@, pat@),
{
    let v = chars_vec(s);
    let p = chars_vec(pat);
    let mut i: usize = 0;
    assert(v@.subrange(0, v@.len() as int) =~= v@);
    let n = v.len();
    let mut go = p.len() > 0 && matches_at(&v, i, &p);
    while go
        invariant
            n == v@.len(),
            v@ == s@,
            p@ == pat@,
            i <= v@.len(),
            strip_prefixes(v@.subrange(i as int, v@.len() as int), pat@) == strip_prefixes(s@, pat@),
            go == (p@.len() > 0 && v@.len() - i >= p@.len() && v@.subrange(i as int, i + p@.len()) == p@),
        decreases v@.len() - i,
    {
        let ghost rest = v@.subrange(i as int, v@.len() as int);
        assert(starts_with_seq(rest, pat@)) by {
            assert(rest.subrange(0, pat@.len() as int) =~= v@.subrange(i as int, i + pat@.len()));
        }
        assert(rest.subrange(pat@.len() as int, rest.len() as int) =~= v@.subrange(i + p@.len(), v@.len() as int));
        assert(i + p@.len() <= v@.len());
        i = i + p.len();
        go = p.len() > 0 && matches_at(&v, i, &p);
    }
    let ghost rest = v@.subrange(i as int, v@.len() as int);
    assert(!(pat@.len() > 0 && starts_with_seq(rest, pat@))) by {
        if pat@.len() > 0 && starts_with_seq(rest, pat@) {
            assert(rest.subrange(0, pat@.len() as int) =~= v@.subrange(i as int, i + pat@.len()));
        }
    }
    let mut out: Vec<char> = Vec::new();
    let mut j: usize = i;
    while j < v.len()
        invariant
            i <= j <= v@.len(),
            out@ == v@.subrange(i as int, j as int),
        decreases v@.len() - j,
    {
        out.push(v[j]);
        j += 1;
    }
    string_from_chars(out.as_slice())
}

/// What occurs in a text still occurs with text added before or after it.
pub proof fn lemma_contains_concat(a: Seq<char>, b: Seq<char>, x: Seq<char>)
    ensures
        contains_seq(b, x) ==> contains_seq(a + b, x) && contains_seq(b + a, x),
{
    if contains_seq(b, x) {
        let i = choose|i: int| #[trigger] occurs_at(b, x, i);
        assert((a + b).subrange(a.len() + i, a.len() + i + x.len()) =~= b.subrange(i, i + x.len()));
        assert(occurs_at(a + b, x, a.len() + i));
        assert((b + a).subrange(i, i + x.len()) =~= b.subrange(i, i + x.len()));
        assert(occurs_at(b + a, x, i));
    }
}

/// A text occurs in itself.
pub proof fn lemma_contains_self(x: Seq<char>)
    ensures
        contains_seq(x, x),
{
    assert(x.subrange(0, x.len() as int) =~= x);
    assert(occurs_at(x, x, 0));
}

/// Every listed text occurs in the list joined with a separator.
pub proof fn lemma_join_contains(list: Seq<Seq<char>>, sep: Seq<char>, k: int)
    requires
        0 <= k < list.len(),
    ensures
        contains_seq(seq_join(list, sep), list[k]),
    decreases list.len(),
{
    lemma_contains_self(list[k]);
    if list.len() == 1 {
    } else if k == list.len() - 1 {
        lemma_contains_concat(seq_join(list.drop_last(), sep) + sep, list.last(), list[k]);
    } else {
        lemma_join_contains(list.drop_last(), sep, k);
        assert(list.drop_last()[k] == list[k]);
        lemma_contains_concat(sep + list.last(), seq_join(list.drop_last(), sep), list[k]);
        assert(seq_join(list.drop_last(), sep) + (sep + list.last()) =~= seq_join(list, sep));
    }
}

/// A non-empty joined list starts with its first text.
pub proof fn lemma_join_first(list: Seq<Seq<char>>, sep: Seq<char>)
    requires
        list.len() > 0,
    ensures
        starts_with_seq(seq_join(list, sep), list[0]),
    decreases list.len(),
{
    if list.len() > 1 {
        lemma_join_first(list.drop_last(), sep);
        let j = seq_join(list.drop_last(), sep);
        assert((j + sep + list.last()).subrange(0, list[0].len() as int) =~= j.subrange(0, list[0].len() as int));
    } else {
        assert(list[0].subrange(0, list[0].len() as int) =~= list[0]);
    }
}

} // verus!
