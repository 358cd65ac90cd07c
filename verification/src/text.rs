//! Verified text utilities: character access, equality, splitting,
//! whitespace trimming, substring search and decimal rendering.
//!
//! Every executable function here is specified against a spec function over
//! `Seq<char>`, so that the parsing and serialization logic built on top can
//! state its behaviour exactly.

use vstd::prelude::*;

verus! {

/// The characters of a string as a vector, in order.
pub fn chars_of(s: &str) -> (v: Vec<char>)
    ensures
        v@ == s@,
{
    let n = s.unicode_len();
    let mut v: Vec<char> = Vec::new();
    let mut i: usize = 0;
    while i < n
        invariant
            n == s@.len(),
            i <= n,
            v@ == s@.subrange(0, i as int),
        decreases n - i,
    {
        v.push(s.get_char(i));
        i = i + 1;
        proof {
            assert(v@ =~= s@.subrange(0, i as int));
        }
    }
    proof {
        assert(v@ =~= s@);
    }
    v
}

/// Whether two strings hold the same characters.
pub fn str_eq(a: &str, b: &str) -> (r: bool)
    ensures
        r == (a@ == b@),
{
    let na = a.unicode_len();
    let nb = b.unicode_len();
    if na != nb {
        proof {
            assert(a@ != b@) by {
                assert(a@.len() != b@.len());
            }
        }
        return false;
    }
    let mut i: usize = 0;
    while i < na
        invariant
            na == a@.len(),
            na == b@.len(),
            i <= na,
            forall|j: int| 0 <= j < i ==> a@[j] == b@[j],
        decreases na - i,
    {
        if a.get_char(i) != b.get_char(i) {
            return false;
        }
        i = i + 1;
    }
    proof {
        assert(a@ =~= b@);
    }
    true
}

/// Unicode whitespace, as `char::is_whitespace` recognises it.
pub open spec fn spec_is_ws(c: char) -> bool {
    c == ' ' || c == '\t' || c == '\n' || c == '\u{b}' || c == '\u{c}' || c == '\r'
        || c == '\u{85}' || c == '\u{a0}' || c == '\u{1680}' || c == '\u{2000}' || c == '\u{2001}'
        || c == '\u{2002}' || c == '\u{2003}' || c == '\u{2004}' || c == '\u{2005}'
        || c == '\u{2006}' || c == '\u{2007}' || c == '\u{2008}' || c == '\u{2009}'
        || c == '\u{200a}' || c == '\u{2028}' || c == '\u{2029}' || c == '\u{202f}'
        || c == '\u{205f}' || c == '\u{3000}'
}

pub fn is_ws(c: char) -> (r: bool)
    ensures
        r == spec_is_ws(c),
{
    c == ' ' || c == '\t' || c == '\n' || c == '\u{b}' || c == '\u{c}' || c == '\r'
        || c == '\u{85}' || c == '\u{a0}' || c == '\u{1680}' || c == '\u{2000}' || c == '\u{2001}'
        || c == '\u{2002}' || c == '\u{2003}' || c == '\u{2004}' || c == '\u{2005}'
        || c == '\u{2006}' || c == '\u{2007}' || c == '\u{2008}' || c == '\u{2009}'
        || c == '\u{200a}' || c == '\u{2028}' || c == '\u{2029}' || c == '\u{202f}'
        || c == '\u{205f}' || c == '\u{3000}'
}

/// The first index at or after `i` holding a non-whitespace character, or the
/// length when only whitespace follows.
pub open spec fn skip_ws_from(s: Seq<char>, i: int) -> int
    decreases s.len() - i,
{
    if i < 0 || i >= s.len() {
        s.len() as int
    } else if spec_is_ws(s[i]) {
        skip_ws_from(s, i + 1)
    } else {
        i
    }
}

/// The bound one past the last non-whitespace character strictly before `i`,
/// or zero when only whitespace precedes.
pub open spec fn skip_ws_rev(s: Seq<char>, i: int) -> int
    decreases i,
{
    if i <= 0 || i > s.len() {
        0
    } else if spec_is_ws(s[i - 1]) {
        skip_ws_rev(s, i - 1)
    } else {
        i
    }
}

/// The string with leading and trailing whitespace removed.
pub open spec fn spec_trim(s: Seq<char>) -> Seq<char> {
    let a = skip_ws_from(s, 0);
    let b = skip_ws_rev(s, s.len() as int);
    if a >= b {
        Seq::empty()
    } else {
        s.subrange(a, b)
    }
}

/// Whether the string holds only whitespace; equivalently, whether trimming
/// trailing whitespace leaves it empty.
pub open spec fn spec_is_blank(s: Seq<char>) -> bool {
    forall|i: int| 0 <= i < s.len() ==> spec_is_ws(s[i])
}

pub fn is_blank(s: &str) -> (r: bool)
    ensures
        r == spec_is_blank(s@),
{
    let n = s.unicode_len();
    let mut i: usize = 0;
    while i < n
        invariant
            n == s@.len(),
            i <= n,
            forall|j: int| 0 <= j < i ==> spec_is_ws(s@[j]),
        decreases n - i,
    {
        if !is_ws(s.get_char(i)) {
            return false;
        }
        i = i + 1;
    }
    true
}

/// Trimming bounds of `s@`: the subrange `r.0 .. r.1` is `spec_trim(s@)`.
pub fn trim_bounds(s: &str) -> (r: (usize, usize))
    ensures
        r.0 <= r.1 <= s@.len(),
        spec_trim(s@) == s@.subrange(r.0 as int, r.1 as int),
{
    let n = s.unicode_len();
    let mut a: usize = 0;
    while a < n && is_ws(s.get_char(a))
        invariant
            n == s@.len(),
            a <= n,
            skip_ws_from(s@, 0) == skip_ws_from(s@, a as int),
        decreases n - a,
    {
        a = a + 1;
    }
    assert(skip_ws_from(s@, 0) == a as int);
    let mut b: usize = n;
    while b > a && is_ws(s.get_char(b - 1))
        invariant
            n == s@.len(),
            a <= b <= n,
            a as int == skip_ws_from(s@, 0),
            skip_ws_rev(s@, n as int) == skip_ws_rev(s@, b as int),
        decreases b,
    {
        b = b - 1;
    }
    proof {
        if b == a {
            // everything from b down is whitespace or before the first
            // non-whitespace character, so the reverse scan bottoms out at
            // or before a
            assert(skip_ws_rev(s@, b as int) <= a as int) by {
                lemma_skip_ws_rev_le(s@, b as int);
            }
        } else {
            assert(skip_ws_rev(s@, b as int) == b as int);
        }
        if a >= skip_ws_rev(s@, s@.len() as int) {
            assert(spec_trim(s@) =~= s@.subrange(a as int, a as int));
        }
    }
    if b == a {
        (a, a)
    } else {
        (a, b)
    }
}

proof fn lemma_skip_ws_rev_le(s: Seq<char>, i: int)
    ensures
        skip_ws_rev(s, i) <= i || i < 0,
    decreases i,
{
    if 0 < i <= s.len() && spec_is_ws(s[i - 1]) {
        lemma_skip_ws_rev_le(s, i - 1);
    }
}

/// The trimmed copy of a string.
pub fn trim_str(s: &str) -> (r: String)
    ensures
        r@ == spec_trim(s@),
{
    let (a, b) = trim_bounds(s);
    let t = s.substring_char(a, b);
    t.to_owned()
}

/// The index of the first occurrence of `c` at or after `i`, or the length
/// when there is none.
pub open spec fn find_char_from(s: Seq<char>, c: char, i: int) -> int
    decreases s.len() - i,
{
    if i < 0 || i >= s.len() {
        s.len() as int
    } else if s[i] == c {
        i
    } else {
        find_char_from(s, c, i + 1)
    }
}

pub proof fn lemma_find_char_from_bounds(s: Seq<char>, c: char, i: int)
    requires
        0 <= i <= s.len(),
    ensures
        i <= find_char_from(s, c, i) <= s.len(),
    decreases s.len() - i,
{
    if i < s.len() && s[i] != c {
        lemma_find_char_from_bounds(s, c, i + 1);
    }
}

/// The lines of a string: split at `\n`, with one `\r` dropped from the end
/// of a line that was ended by `\n`; a final line ending is optional and
/// produces no extra empty line.
pub open spec fn spec_lines_from(s: Seq<char>, i: int) -> Seq<Seq<char>>
    decreases s.len() + 1 - i,
    via spec_lines_from_dec
{
    if i < 0 || i >= s.len() {
        Seq::empty()
    } else {
        let j = find_char_from(s, '\n', i);
        let line = if j < s.len() && j > i && s[j - 1] == '\r' {
            s.subrange(i, j - 1)
        } else {
            s.subrange(i, j)
        };
        seq![line] + spec_lines_from(s, j + 1)
    }
}

#[via_fn]
proof fn spec_lines_from_dec(s: Seq<char>, i: int) {
    if 0 <= i <= s.len() {
        lemma_find_char_from_bounds(s, '\n', i);
    }
}

pub open spec fn spec_lines(s: Seq<char>) -> Seq<Seq<char>> {
    spec_lines_from(s, 0)
}

/// The lines of a string, as owned copies.
pub fn split_lines(s: &str) -> (v: Vec<String>)
    ensures
        v.deep_view() == spec_lines(s@),
{
    let n = s.unicode_len();
    let mut v: Vec<String> = Vec::new();
    let mut i: usize = 0;
    while i < n
        invariant
            n == s@.len(),
            i <= n,
            spec_lines(s@) == v.deep_view() + spec_lines_from(s@, i as int),
        decreases n - i,
    {
        let mut j: usize = i;
        while j < n && s.get_char(j) != '\n'
            invariant
                n == s@.len(),
                i <= j <= n,
                find_char_from(s@, '\n', i as int) == find_char_from(s@, '\n', j as int),
            decreases n - j,
        {
            j = j + 1;
        }
        assert(find_char_from(s@, '\n', i as int) == j as int);
        let line_end = if j < n && j > i && s.get_char(j - 1) == '\r' {
            j - 1
        } else {
            j
        };
        let line = s.substring_char(i, line_end).to_owned();
        v.push(line);
        proof {
            assert(v.deep_view() =~= v.deep_view().drop_last().push(line@));
        }
        if j >= n {
            proof {
                assert(spec_lines_from(s@, j + 1) =~= Seq::<Seq<char>>::empty());
                assert(v.deep_view() =~= spec_lines(s@));
            }
            return v;
        }
        i = j + 1;
    }
    proof {
        assert(v.deep_view() =~= spec_lines(s@));
    }
    v
}

/// Split at every single space character; empty pieces are kept, and the
/// result always holds at least one piece.
pub open spec fn spec_split_sp_from(s: Seq<char>, i: int) -> Seq<Seq<char>>
    decreases s.len() + 1 - i,
    via spec_split_sp_from_dec
{
    if i < 0 || i > s.len() {
        seq![Seq::<char>::empty()]
    } else {
        let j = find_char_from(s, ' ', i);
        if j >= s.len() {
            seq![s.subrange(i, s.len() as int)]
        } else {
            seq![s.subrange(i, j)] + spec_split_sp_from(s, j + 1)
        }
    }
}

#[via_fn]
proof fn spec_split_sp_from_dec(s: Seq<char>, i: int) {
    if 0 <= i <= s.len() {
        lemma_find_char_from_bounds(s, ' ', i);
    }
}

pub open spec fn spec_split_sp(s: Seq<char>) -> Seq<Seq<char>> {
    spec_split_sp_from(s, 0)
}

/// The pieces of a string split at each space.
pub fn split_spaces(s: &str) -> (v: Vec<String>)
    ensures
        v.deep_view() == spec_split_sp(s@),
{
    let n = s.unicode_len();
    let mut v: Vec<String> = Vec::new();
    let mut i: usize = 0;
    loop
        invariant
            n == s@.len(),
            i <= n,
            spec_split_sp(s@) == v.deep_view() + spec_split_sp_from(s@, i as int),
        decreases n - i,
    {
        let mut j: usize = i;
        while j < n && s.get_char(j) != ' '
            invariant
                n == s@.len(),
                i <= j <= n,
                find_char_from(s@, ' ', i as int) == find_char_from(s@, ' ', j as int),
            decreases n - j,
        {
            j = j + 1;
        }
        assert(find_char_from(s@, ' ', i as int) == j as int);
        let piece = s.substring_char(i, j).to_owned();
        v.push(piece);
        proof {
            assert(v.deep_view() =~= v.deep_view().drop_last().push(piece@));
        }
        if j >= n {
            proof {
                assert(v.deep_view() =~= spec_split_sp(s@));
            }
            return v;
        }
        assert(j < n);
        i = j + 1;
    }
}

/// Whether `pat` occurs in `s` starting at index `i`.
pub open spec fn occurs_at(s: Seq<char>, pat: Seq<char>, i: int) -> bool {
    0 <= i && i + pat.len() <= s.len() && s.subrange(i, i + pat.len() as int) == pat
}

/// The first index at or after `i` where `pat` occurs in `s`.
pub open spec fn spec_find_from(s: Seq<char>, pat: Seq<char>, i: int) -> Option<int>
    decreases s.len() + 1 - i,
{
    if i < 0 || i + pat.len() > s.len() {
        None
    } else if occurs_at(s, pat, i) {
        Some(i)
    } else {
        spec_find_from(s, pat, i + 1)
    }
}

pub proof fn lemma_find_from_occurs(s: Seq<char>, pat: Seq<char>, i: int, k: int)
    requires
        spec_find_from(s, pat, i) == Some(k),
    ensures
        i <= k,
        occurs_at(s, pat, k),
    decreases s.len() + 1 - i,
{
    if !(i < 0 || i + pat.len() > s.len()) && !occurs_at(s, pat, i) {
        lemma_find_from_occurs(s, pat, i + 1, k);
    }
}

/// The first occurrence of `pat` in `s` at or after `from`, as a character
/// index.
pub fn find_from(s: &Vec<char>, pat: &Vec<char>, from: usize) -> (r: Option<usize>)
    ensures
        match r {
            Some(k) => spec_find_from(s@, pat@, from as int) == Some(k as int),
            None => spec_find_from(s@, pat@, from as int).is_none(),
        },
{
    let n = s.len();
    let m = pat.len();
    if from > n || m > n - from {
        return None;
    }
    let mut i: usize = from;
    while i <= n - m
        invariant
            n == s@.len(),
            m == pat@.len(),
            m <= n,
            from <= i,
            i <= n - m + 1,
            spec_find_from(s@, pat@, from as int) == spec_find_from(s@, pat@, i as int),
        decreases n - i,
    {
        let mut k: usize = 0;
        let mut hit: bool = true;
        while k < m
            invariant
                n == s@.len(),
                m == pat@.len(),
                i + m <= n,
                k <= m,
                hit == (forall|t: int| 0 <= t < k ==> s@[i + t] == pat@[t]),
            decreases m - k,
        {
            if s[i + k] != pat[k] {
                hit = false;
                k = m;
            } else {
                proof {
                    assert(s@[i + k] == pat@[k as int]);
                }
                k = k + 1;
            }
        }
        if hit {
            proof {
                assert(s@.subrange(i as int, i + m) =~= pat@);
                assert(occurs_at(s@, pat@, i as int));
            }
            return Some(i);
        }
        proof {
            assert(!occurs_at(s@, pat@, i as int)) by {
                if occurs_at(s@, pat@, i as int) {
                    let t = choose|t: int| 0 <= t < m && s@[i + t] != pat@[t];
                    assert(s@.subrange(i as int, i + m)[t] == pat@[t]);
                }
            }
        }
        i = i + 1;
    }
    None
}

/// The character for a single decimal digit.
pub open spec fn spec_digit(d: nat) -> char {
    if d == 0 { '0' }
    else if d == 1 { '1' }
    else if d == 2 { '2' }
    else if d == 3 { '3' }
    else if d == 4 { '4' }
    else if d == 5 { '5' }
    else if d == 6 { '6' }
    else if d == 7 { '7' }
    else if d == 8 { '8' }
    else { '9' }
}

/// The decimal rendering of a natural number, most significant digit first.
pub open spec fn spec_decimal(n: nat) -> Seq<char>
    decreases n,
{
    if n < 10 {
        seq![spec_digit(n)]
    } else {
        spec_decimal(n / 10) + seq![spec_digit(n % 10)]
    }
}

fn digit_str(d: usize) -> (r: &'static str)
    requires
        d < 10,
    ensures
        r@ == seq![spec_digit(d as nat)],
{
    proof {
        reveal_strlit("0");
        reveal_strlit("1");
        reveal_strlit("2");
        reveal_strlit("3");
        reveal_strlit("4");
        reveal_strlit("5");
        reveal_strlit("6");
        reveal_strlit("7");
        reveal_strlit("8");
        reveal_strlit("9");
    }
    if d == 0 { "0" }
    else if d == 1 { "1" }
    else if d == 2 { "2" }
    else if d == 3 { "3" }
    else if d == 4 { "4" }
    else if d == 5 { "5" }
    else if d == 6 { "6" }
    else if d == 7 { "7" }
    else if d == 8 { "8" }
    else { "9" }
}

/// The decimal rendering of a number.
pub fn usize_to_string(n: usize) -> (r: String)
    ensures
        r@ == spec_decimal(n as nat),
    decreases n,
{
    if n < 10 {
        digit_str(n).to_owned()
    } else {
        let high = usize_to_string(n / 10);
        high.concat(digit_str(n % 10))
    }
}

/// The characters that lossy UTF-8 decoding yields for a byte sequence. The
/// full decoding rule takes pages to state, so the result only carries this
/// name; it is a function of the bytes alone.
pub uninterp spec fn lossy_decode(bytes: Seq<u8>) -> Seq<char>;

/// Relies on String::from_utf8_lossy: valid UTF-8 decodes unchanged — its
/// characters encode back to exactly the input bytes — so a sequence of ASCII
/// bytes decodes to exactly those characters; the result depends on the bytes
/// alone.
#[verifier::external_body]
pub fn utf8_lossy(bytes: &[u8]) -> (r: String)
    ensures
        r@ == lossy_decode(bytes@),
        vstd::utf8::valid_utf8(bytes@) ==> vstd::utf8::encode_utf8(r@) == bytes@,
        (forall|i: int| 0 <= i < bytes@.len() ==> bytes@[i] < 0x80) ==> r@ == bytes@.map_values(
            |b: u8| b as char,
        ),
{
    String::from_utf8_lossy(bytes).into_owned()
}

/// The pieces joined with a single newline between them.
pub open spec fn spec_join_nl(pieces: Seq<Seq<char>>) -> Seq<char>
    decreases pieces.len(),
{
    if pieces.len() == 0 {
        Seq::empty()
    } else if pieces.len() == 1 {
        pieces[0]
    } else {
        spec_join_nl(pieces.drop_last()) + seq!['\n'] + pieces.last()
    }
}

/// Join owned lines with single newline separators.
pub fn join_nl(pieces: &Vec<String>) -> (r: String)
    ensures
        r@ == spec_join_nl(pieces.deep_view()),
{
    let mut r = String::new();
    let mut i: usize = 0;
    while i < pieces.len()
        invariant
            i <= pieces@.len(),
            r@ == spec_join_nl(pieces.deep_view().subrange(0, i as int)),
        decreases pieces@.len() - i,
    {
        proof {
            reveal_strlit("\n");
            assert("\n"@ =~= seq!['\n']);
        }
        if i > 0 {
            r.append("\n");
        }
        r.append(pieces[i].as_str());
        i = i + 1;
        proof {
            let pfx = pieces.deep_view().subrange(0, i as int);
            assert(pfx.drop_last() =~= pieces.deep_view().subrange(0, i - 1));
            assert(pfx.last() == pieces.deep_view()[i - 1]);
            if i == 1 {
                assert(r@ == pfx[0]);
                assert(r@ == spec_join_nl(pfx));
            } else {
                assert(r@ == spec_join_nl(pfx.drop_last()) + seq!['\n'] + pfx.last());
            }
        }
    }
    proof {
        assert(pieces.deep_view().subrange(0, pieces.deep_view().len() as int) =~= pieces.deep_view());
    }
    r
}

} // verus!
