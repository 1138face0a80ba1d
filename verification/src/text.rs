//! Text as a sequence of characters: trimming, searching, splitting, numbers.

use vstd::prelude::*;

verus! {

// ---------------------------------------------------------------------------
// What the standard library does to a `String`
// ---------------------------------------------------------------------------

/// `String::push` appends the character it is given and changes nothing else.
pub assume_specification[ String::push ](s: &mut String, c: char)
    ensures
        final(s)@ == old(s)@.push(c),
;

/// `String::pop` takes the last character off and returns it, or returns `None` and leaves
/// the string as it is where it was empty.
pub assume_specification[ String::pop ](s: &mut String) -> (r: Option<char>)
    ensures
        old(s)@.len() == 0 ==> r is None && final(s)@ == old(s)@,
        old(s)@.len() > 0 ==> r == Some(old(s)@.last()) && final(s)@ == old(s)@.drop_last(),
;

/// `String::clear` leaves the empty string.
pub assume_specification[ String::clear ](s: &mut String)
    ensures
        final(s)@ == Seq::<char>::empty(),
;

/// What `str::to_lowercase` makes of a text.
pub uninterp spec fn lowercased(s: Seq<char>) -> Seq<char>;

/// `str::to_lowercase`, by the name of its result.
#[verifier::external_body]
pub(crate) fn lowercase(s: &str) -> (r: String)
    ensures
        r@ == lowercased(s@),
{
    s.to_lowercase()
}

// ---------------------------------------------------------------------------
// Characters in and out
// ---------------------------------------------------------------------------

/// The number of bytes that a text takes up, which is what `str::len` counts.
pub open spec fn utf8_len(s: Seq<char>) -> usize {
    vstd::utf8::encode_utf8(s).len() as usize
}

/// Counts the bytes of a text, which are no more than can be counted.
pub fn byte_len(s: &str) -> (r: usize)
    ensures
        r == vstd::utf8::encode_utf8(s@).len(),
        r == utf8_len(s@),
{
    s.as_bytes().len()
}

/// Texts put together take up the bytes of both, and a text has no fewer bytes than
/// characters.
pub proof fn lemma_bytes_add_up(a: Seq<char>, b: Seq<char>)
    ensures
        vstd::utf8::encode_utf8(a + b).len() == vstd::utf8::encode_utf8(a).len()
            + vstd::utf8::encode_utf8(b).len(),
        vstd::utf8::encode_utf8(a).len() >= a.len(),
    decreases a.len(),
{
    if a.len() == 0 {
        assert(a + b =~= b);
    } else {
        assert((a + b).drop_first() =~= a.drop_first() + b);
        lemma_bytes_add_up(a.drop_first(), b);
        vstd::utf8::encode_utf8_first_scalar(a);
    }
}

/// The characters of `s`, in order.
pub fn chars_of(s: &str) -> (r: Vec<char>)
    ensures
        r@ == s@,
{
    let mut out: Vec<char> = Vec::new();
    for c in it: s.chars()
        invariant
            out@ == it.seq().take(it.index()),
            it.seq() == s@,
    {
        out.push(c);
    }
    out
}

/// The text made of the characters `lo..hi` of `v`.
pub fn text_of(v: &Vec<char>, lo: usize, hi: usize) -> (r: String)
    requires
        lo <= hi <= v@.len(),
    ensures
        r@ == v@.subrange(lo as int, hi as int),
{
    let mut out = String::new();
    let mut i: usize = lo;
    while i < hi
        invariant
            lo <= i <= hi <= v@.len(),
            out@ == v@.subrange(lo as int, i as int),
        decreases hi - i,
    {
        out.push(v[i]);
        i += 1;
    }
    out
}

/// Whether two texts are the same.
pub fn same_text(a: &str, b: &str) -> (r: bool)
    ensures
        r == (a@ == b@),
{
    let x = a.to_owned();
    let y = b.to_owned();
    x == y
}

/// The text followed by one more text.
pub fn joined(a: &str, b: &str) -> (r: String)
    ensures
        r@ == a@ + b@,
{
    let mut out = a.to_owned();
    out.append(b);
    out
}

/// The first `n` characters, or all of them where there are fewer.
pub open spec fn first_chars(s: Seq<char>, n: int) -> Seq<char> {
    if s.len() <= n {
        s
    } else {
        s.take(n)
    }
}

pub fn take_chars(s: &str, n: usize) -> (r: String)
    ensures
        r@ == first_chars(s@, n as int),
{
    let v = chars_of(s);
    if v.len() <= n {
        s.to_owned()
    } else {
        text_of(&v, 0, n)
    }
}

/// `n` times the same character.
pub fn repeated(c: char, n: usize) -> (r: String)
    ensures
        r@ == Seq::new(n as nat, |i: int| c),
{
    let mut out = String::new();
    let mut i: usize = 0;
    while i < n
        invariant
            i <= n,
            out@ == Seq::new(i as nat, |k: int| c),
        decreases n - i,
    {
        out.push(c);
        i += 1;
    }
    out
}

// ---------------------------------------------------------------------------
// White space
// ---------------------------------------------------------------------------

/// The characters with Unicode's White_Space property.
pub open spec fn is_white_space(c: char) -> bool {
    let n = c as u32;
    ||| 0x9 <= n <= 0xd
    ||| n == 0x20
    ||| n == 0x85
    ||| n == 0xa0
    ||| n == 0x1680
    ||| 0x2000 <= n <= 0x200a
    ||| n == 0x2028
    ||| n == 0x2029
    ||| n == 0x202f
    ||| n == 0x205f
    ||| n == 0x3000
}

pub fn white_space(c: char) -> (r: bool)
    ensures
        r == is_white_space(c),
{
    let n: u32 = c as u32;
    (0x9 <= n && n <= 0xd) || n == 0x20 || n == 0x85 || n == 0xa0 || n == 0x1680 || (0x2000 <= n
        && n <= 0x200a) || n == 0x2028 || n == 0x2029 || n == 0x202f || n == 0x205f || n == 0x3000
}

/// Nothing but white space, or nothing at all.
pub open spec fn is_blank(s: Seq<char>) -> bool {
    forall|i: int| 0 <= i < s.len() ==> is_white_space(#[trigger] s[i])
}

pub open spec fn without_leading_space(s: Seq<char>) -> Seq<char>
    decreases s.len(),
{
    if s.len() > 0 && is_white_space(s[0]) {
        without_leading_space(s.drop_first())
    } else {
        s
    }
}

pub open spec fn without_trailing_space(s: Seq<char>) -> Seq<char>
    decreases s.len(),
{
    if s.len() > 0 && is_white_space(s.last()) {
        without_trailing_space(s.drop_last())
    } else {
        s
    }
}

/// The text without white space at either end.
pub open spec fn trimmed(s: Seq<char>) -> Seq<char> {
    without_trailing_space(without_leading_space(s))
}

proof fn lemma_leading_skip(s: Seq<char>, i: int)
    requires
        0 <= i <= s.len(),
        forall|k: int| 0 <= k < i ==> is_white_space(#[trigger] s[k]),
    ensures
        without_leading_space(s) == without_leading_space(s.skip(i)),
    decreases i,
{
    if i > 0 {
        let t = s.drop_first();
        assert(forall|k: int| 0 <= k < i - 1 ==> t[k] == s[k + 1]);
        lemma_leading_skip(t, i - 1);
        assert(t.skip(i - 1) =~= s.skip(i));
    } else {
        assert(s.skip(0) =~= s);
    }
}

proof fn lemma_trailing_skip(s: Seq<char>, i: int)
    requires
        0 <= i <= s.len(),
        forall|k: int| i <= k < s.len() ==> is_white_space(#[trigger] s[k]),
    ensures
        without_trailing_space(s) == without_trailing_space(s.take(i)),
    decreases s.len() - i,
{
    if i < s.len() {
        let t = s.drop_last();
        assert(forall|k: int| i <= k < t.len() ==> t[k] == s[k]);
        lemma_trailing_skip(t, i);
        assert(t.take(i) =~= s.take(i));
    } else {
        assert(s.take(i) =~= s);
    }
}

/// The text that `s` is without the white space around it.
pub fn trim(s: &str) -> (r: String)
    ensures
        r@ == trimmed(s@),
{
    let v = chars_of(s);
    let mut lo: usize = 0;
    while lo < v.len() && white_space(v[lo])
        invariant
            lo <= v@.len(),
            forall|k: int| 0 <= k < lo ==> is_white_space(#[trigger] v@[k]),
        decreases v@.len() - lo,
    {
        lo += 1;
    }
    let ghost rest = v@.skip(lo as int);
    proof {
        lemma_leading_skip(v@, lo as int);
        if lo < v@.len() {
            assert(rest[0] == v@[lo as int]);
        }
        assert(without_leading_space(v@) == rest);
    }
    let mut hi: usize = v.len();
    while hi > lo && white_space(v[hi - 1])
        invariant
            lo <= hi <= v@.len(),
            forall|k: int| hi <= k < v@.len() ==> is_white_space(#[trigger] v@[k]),
        decreases hi,
    {
        hi -= 1;
    }
    proof {
        assert(forall|k: int| hi - lo <= k < rest.len() ==> rest[k] == v@[k + lo]);
        lemma_trailing_skip(rest, hi - lo);
        let kept = rest.take(hi - lo);
        assert(kept =~= v@.subrange(lo as int, hi as int));
        if hi > lo {
            assert(kept.last() == v@[hi - 1]);
        }
    }
    text_of(&v, lo, hi)
}

/// A text is blank exactly where trimming leaves nothing of it.
pub proof fn law_blank_texts_trim_to_nothing(s: Seq<char>)
    ensures
        is_blank(s) <==> trimmed(s).len() == 0,
{
    let t = without_leading_space(s);
    if is_blank(s) {
        lemma_leading_skip(s, s.len() as int);
        assert(s.skip(s.len() as int).len() == 0);
    } else {
        let k = choose|k: int| 0 <= k < s.len() && !is_white_space(#[trigger] s[k]);
        lemma_leading_keeps(s, k);
        let j = choose|j: int| 0 <= j < t.len() && t[j] == s[k];
        lemma_trailing_keeps(t, j);
    }
}

proof fn lemma_leading_keeps(s: Seq<char>, k: int)
    requires
        0 <= k < s.len(),
        !is_white_space(s[k]),
    ensures
        exists|j: int|
            0 <= j < without_leading_space(s).len() && #[trigger] without_leading_space(s)[j]
                == s[k],
    decreases s.len(),
{
    if is_white_space(s[0]) {
        lemma_leading_keeps(s.drop_first(), k - 1);
        let t = without_leading_space(s.drop_first());
        let j = choose|j: int| 0 <= j < t.len() && #[trigger] t[j] == s.drop_first()[k - 1];
        assert(without_leading_space(s)[j] == s[k]);
    } else {
        assert(without_leading_space(s)[k] == s[k]);
    }
}

proof fn lemma_trailing_keeps(s: Seq<char>, k: int)
    requires
        0 <= k < s.len(),
        !is_white_space(s[k]),
    ensures
        without_trailing_space(s).len() > 0,
    decreases s.len(),
{
    if is_white_space(s.last()) {
        lemma_trailing_keeps(s.drop_last(), k);
    }
}

/// Whether there is nothing but white space in `s`.
pub fn blank(s: &str) -> (r: bool)
    ensures
        r == is_blank(s@),
{
    let v = chars_of(s);
    let mut i: usize = 0;
    while i < v.len()
        invariant
            i <= v@.len(),
            v@ == s@,
            forall|k: int| 0 <= k < i ==> is_white_space(#[trigger] v@[k]),
        decreases v@.len() - i,
    {
        if !white_space(v[i]) {
            assert(!is_white_space(s@[i as int]));
            return false;
        }
        i += 1;
    }
    true
}

// ---------------------------------------------------------------------------
// One character at either end
// ---------------------------------------------------------------------------

/// The text without the run of `c` that it may end in.
pub open spec fn without_trailing(s: Seq<char>, c: char) -> Seq<char>
    decreases s.len(),
{
    if s.len() > 0 && s.last() == c {
        without_trailing(s.drop_last(), c)
    } else {
        s
    }
}

pub fn trim_end_char(s: &str, c: char) -> (r: String)
    ensures
        r@ == without_trailing(s@, c),
{
    let mut out = s.to_owned();
    let v = chars_of(s);
    let mut hi: usize = v.len();
    assert(v@.take(hi as int) =~= s@);
    while hi > 0 && v[hi - 1] == c
        invariant
            hi <= v@.len(),
            v@ == s@,
            out@ == v@.take(hi as int),
            without_trailing(v@.take(hi as int), c) == without_trailing(s@, c),
        decreases hi,
    {
        let _ = out.pop();
        hi -= 1;
        assert(v@.take(hi + 1).drop_last() =~= v@.take(hi as int));
    }
    out
}

/// The text without the run of `c` that it may begin with.
pub open spec fn without_leading(s: Seq<char>, c: char) -> Seq<char>
    decreases s.len(),
{
    if s.len() > 0 && s[0] == c {
        without_leading(s.drop_first(), c)
    } else {
        s
    }
}

pub fn trim_start_char(s: &str, c: char) -> (r: String)
    ensures
        r@ == without_leading(s@, c),
{
    let v = chars_of(s);
    let mut lo: usize = 0;
    assert(v@.skip(0) =~= s@);
    while lo < v.len() && v[lo] == c
        invariant
            lo <= v@.len(),
            v@ == s@,
            without_leading(v@.skip(lo as int), c) == without_leading(s@, c),
        decreases v@.len() - lo,
    {
        assert(v@.skip(lo as int).drop_first() =~= v@.skip(lo + 1));
        lo += 1;
    }
    assert(v@.subrange(lo as int, v@.len() as int) =~= v@.skip(lo as int));
    text_of(&v, lo, v.len())
}

// ---------------------------------------------------------------------------
// One text inside another
// ---------------------------------------------------------------------------

/// `p` stands in `s` at position `i`.
pub open spec fn occurs_at(s: Seq<char>, p: Seq<char>, i: int) -> bool {
    0 <= i && i + p.len() <= s.len() && s.subrange(i, i + p.len()) == p
}

/// The first position at or after `i` where `p` stands in `s`.
pub open spec fn find_from(s: Seq<char>, p: Seq<char>, i: int) -> Option<int>
    decreases s.len() + 1 - i,
{
    if i < 0 || i + p.len() > s.len() {
        None
    } else if occurs_at(s, p, i) {
        Some(i)
    } else {
        find_from(s, p, i + 1)
    }
}

pub open spec fn contains_text(s: Seq<char>, p: Seq<char>) -> bool {
    exists|i: int| #[trigger] occurs_at(s, p, i)
}

pub open spec fn begins_with(s: Seq<char>, p: Seq<char>) -> bool {
    p.len() <= s.len() && s.take(p.len() as int) == p
}

pub fn occurs(v: &Vec<char>, p: &Vec<char>, i: usize) -> (r: bool)
    ensures
        r == occurs_at(v@, p@, i as int),
{
    if p.len() > v.len() || i > v.len() - p.len() {
        return false;
    }
    assert(v@.len() == v.len());
    let mut k: usize = 0;
    while k < p.len()
        invariant
            i + p@.len() <= v@.len() <= usize::MAX,
            k <= p@.len(),
            forall|j: int| 0 <= j < k ==> v@[i + j] == #[trigger] p@[j],
        decreases p@.len() - k,
    {
        if v[i + k] != p[k] {
            assert(v@.subrange(i as int, i + p@.len())[k as int] != p@[k as int]);
            return false;
        }
        k += 1;
    }
    assert(v@.subrange(i as int, i + p@.len()) =~= p@);
    true
}

pub proof fn lemma_find_from(s: Seq<char>, p: Seq<char>, i: int)
    requires
        0 <= i,
    ensures
        match find_from(s, p, i) {
            Some(k) => i <= k && occurs_at(s, p, k) && forall|j: int|
                i <= j < k ==> !#[trigger] occurs_at(s, p, j),
            None => forall|j: int| i <= j ==> !#[trigger] occurs_at(s, p, j),
        },
    decreases s.len() + 1 - i,
{
    if i + p.len() <= s.len() && !occurs_at(s, p, i) {
        lemma_find_from(s, p, i + 1);
    }
}

pub fn find(v: &Vec<char>, p: &Vec<char>, from: usize) -> (r: Option<usize>)
    ensures
        match r {
            Some(k) => find_from(v@, p@, from as int) == Some(k as int),
            None => find_from(v@, p@, from as int) is None,
        },
{
    if p.len() > v.len() {
        return None;
    }
    let last: usize = v.len() - p.len();
    let mut i: usize = from;
    while i <= last
        invariant
            from <= i,
            last == v@.len() - p@.len(),
            find_from(v@, p@, from as int) == find_from(v@, p@, i as int),
        decreases last + 1 - i,
    {
        if occurs(v, p, i) {
            return Some(i);
        }
        if i == last {
            assert(find_from(v@, p@, i + 1) is None);
            return None;
        }
        i += 1;
    }
    None
}

/// Whether `p` stands somewhere in `s`.
pub fn contains(s: &str, p: &str) -> (r: bool)
    ensures
        r == contains_text(s@, p@),
{
    let v = chars_of(s);
    let q = chars_of(p);
    proof {
        lemma_find_from(s@, p@, 0);
    }
    match find(&v, &q, 0) {
        Some(k) => {
            assert(occurs_at(s@, p@, k as int));
            true
        },
        None => false,
    }
}

/// Whether `s` begins with `p`.
pub fn starts_with(s: &str, p: &str) -> (r: bool)
    ensures
        r == begins_with(s@, p@),
{
    let v = chars_of(s);
    let q = chars_of(p);
    assert(p@.len() <= s@.len() ==> s@.subrange(0, p@.len() as int) == s@.take(p@.len() as int));
    occurs(&v, &q, 0)
}

/// What follows `p` in `s`, where `s` begins with `p`.
pub open spec fn after_prefix(s: Seq<char>, p: Seq<char>) -> Option<Seq<char>> {
    if begins_with(s, p) {
        Some(s.skip(p.len() as int))
    } else {
        None
    }
}

pub fn strip_prefix(s: &str, p: &str) -> (r: Option<String>)
    ensures
        match r {
            Some(t) => after_prefix(s@, p@) == Some(t@),
            None => after_prefix(s@, p@) is None,
        },
{
    if starts_with(s, p) {
        let v = chars_of(s);
        let q = chars_of(p);
        assert(v@.subrange(q@.len() as int, v@.len() as int) =~= s@.skip(p@.len() as int));
        Some(text_of(&v, q.len(), v.len()))
    } else {
        None
    }
}

/// The text with the first `p` in it replaced by `q`.
pub open spec fn replaced_once(s: Seq<char>, p: Seq<char>, q: Seq<char>) -> Seq<char> {
    match find_from(s, p, 0) {
        Some(k) => s.take(k) + q + s.skip(k + p.len()),
        None => s,
    }
}

pub fn replace_first(s: &str, p: &str, q: &str) -> (r: String)
    ensures
        r@ == replaced_once(s@, p@, q@),
{
    let v = chars_of(s);
    let pat = chars_of(p);
    proof {
        lemma_find_from(s@, p@, 0);
    }
    match find(&v, &pat, 0) {
        Some(k) => {
            let mut out = text_of(&v, 0, k);
            assert(k + pat@.len() <= v.len());
            out.append(q);
            let tail = text_of(&v, k + pat.len(), v.len());
            out.append(tail.as_str());
            assert(v@.subrange(0, k as int) =~= s@.take(k as int));
            assert(v@.subrange(k + p@.len(), v@.len() as int) =~= s@.skip(k + p@.len()));
            out
        },
        None => s.to_owned(),
    }
}

// ---------------------------------------------------------------------------
// Lines and words
// ---------------------------------------------------------------------------

/// A line that a line feed ended, without the carriage return before the line feed.
pub open spec fn without_return(s: Seq<char>) -> Seq<char> {
    if s.len() > 0 && s.last() == '\r' {
        s.drop_last()
    } else {
        s
    }
}

/// The lines of a text. Each ends with a line feed, which a carriage return may precede;
/// the last may end without one.
pub open spec fn lines_of(s: Seq<char>) -> Seq<Seq<char>>
    decreases s.len(),
{
    if s.len() == 0 {
        Seq::empty()
    } else {
        match first_index(s, '\n', 0) {
            Some(k) => if 0 <= k < s.len() {
                seq![without_return(s.take(k))] + lines_of(s.skip(k + 1))
            } else {
                Seq::empty()
            },
            None => seq![s],
        }
    }
}

/// The first position at or after `i` that holds `c`.
pub open spec fn first_index(s: Seq<char>, c: char, i: int) -> Option<int>
    decreases s.len() - i,
{
    if i < 0 || i >= s.len() {
        None
    } else if s[i] == c {
        Some(i)
    } else {
        first_index(s, c, i + 1)
    }
}

pub proof fn lemma_first_index(s: Seq<char>, c: char, i: int)
    requires
        0 <= i,
    ensures
        match first_index(s, c, i) {
            Some(k) => i <= k < s.len() && s[k] == c && forall|j: int|
                i <= j < k ==> #[trigger] s[j] != c,
            None => forall|j: int| i <= j < s.len() ==> #[trigger] s[j] != c,
        },
    decreases s.len() - i,
{
    if i < s.len() && s[i] != c {
        lemma_first_index(s, c, i + 1);
    }
}

pub fn index_of(v: &Vec<char>, c: char, from: usize) -> (r: Option<usize>)
    ensures
        match r {
            Some(k) => first_index(v@, c, from as int) == Some(k as int) && from <= k < v@.len(),
            None => first_index(v@, c, from as int) is None,
        },
{
    let mut i: usize = from;
    while i < v.len()
        invariant
            from <= i,
            first_index(v@, c, from as int) == first_index(v@, c, i as int),
        decreases v@.len() - i,
    {
        if v[i] == c {
            return Some(i);
        }
        i += 1;
    }
    None
}

/// The texts that a vector of strings holds.
pub open spec fn texts(v: Seq<String>) -> Seq<Seq<char>> {
    v.map_values(|s: String| s@)
}

pub proof fn lemma_first_index_skip(s: Seq<char>, c: char, lo: int, i: int)
    requires
        0 <= lo <= i <= s.len(),
    ensures
        match first_index(s, c, i) {
            Some(k) => first_index(s.skip(lo), c, i - lo) == Some(k - lo),
            None => first_index(s.skip(lo), c, i - lo) is None,
        },
    decreases s.len() - i,
{
    if i < s.len() && s[i] != c {
        lemma_first_index_skip(s, c, lo, i + 1);
    }
}

pub fn lines(s: &str) -> (r: Vec<String>)
    ensures
        texts(r@) == lines_of(s@),
{
    let v = chars_of(s);
    let mut out: Vec<String> = Vec::new();
    let mut lo: usize = 0;
    assert(v@.skip(0) =~= s@);
    assert(texts(out@) + lines_of(v@.skip(0)) =~= lines_of(s@));
    while lo < v.len()
        invariant
            lo <= v@.len(),
            texts(out@) + lines_of(v@.skip(lo as int)) == lines_of(s@),
        decreases v@.len() - lo,
    {
        let ghost rest = v@.skip(lo as int);
        let ghost before = texts(out@);
        proof {
            lemma_first_index_skip(v@, '\n', lo as int, lo as int);
        }
        match index_of(&v, '\n', lo) {
            Some(k) => {
                let end: usize = if k > lo && v[k - 1] == '\r' {
                    k - 1
                } else {
                    k
                };
                let line = text_of(&v, lo, end);
                proof {
                    assert(rest.take(k - lo) =~= v@.subrange(lo as int, k as int));
                    if k > lo {
                        assert(rest.take(k - lo).last() == v@[k - 1]);
                        assert(rest.take(k - lo).drop_last() =~= v@.subrange(lo as int, k - 1));
                    }
                    assert(rest.skip(k - lo + 1) =~= v@.skip(k + 1));
                    assert(line@ == without_return(rest.take(k - lo)));
                    assert(lines_of(rest) == seq![line@] + lines_of(v@.skip(k + 1)));
                }
                out.push(line);
                lo = k + 1;
                proof {
                    assert(texts(out@) =~= before.push(line@));
                    assert(before.push(line@) + lines_of(v@.skip(lo as int)) =~= before
                        + lines_of(rest));
                }
            },
            None => {
                let line = text_of(&v, lo, v.len());
                proof {
                    assert(line@ =~= rest);
                    assert(lines_of(rest) == seq![rest]);
                }
                out.push(line);
                lo = v.len();
                proof {
                    assert(texts(out@) =~= before.push(rest));
                    assert(lines_of(v@.skip(lo as int)) =~= Seq::<Seq<char>>::empty());
                    assert(before.push(rest) + lines_of(v@.skip(lo as int)) =~= before
                        + lines_of(rest));
                }
            },
        }
    }
    proof {
        assert(lines_of(v@.skip(lo as int)) =~= Seq::<Seq<char>>::empty());
        assert(texts(out@) + lines_of(v@.skip(lo as int)) =~= texts(out@));
    }
    out
}

/// The first position at or after `i` that holds white space, or the end of the text.
pub open spec fn next_space(s: Seq<char>, i: int) -> int
    decreases s.len() - i,
{
    if i < 0 || i >= s.len() {
        s.len() as int
    } else if is_white_space(s[i]) {
        i
    } else {
        next_space(s, i + 1)
    }
}

pub proof fn lemma_next_space(s: Seq<char>, i: int)
    requires
        0 <= i <= s.len(),
    ensures
        i <= next_space(s, i) <= s.len(),
        forall|k: int| i <= k < next_space(s, i) ==> !is_white_space(#[trigger] s[k]),
        next_space(s, i) < s.len() ==> is_white_space(s[next_space(s, i)]),
    decreases s.len() - i,
{
    if i < s.len() && !is_white_space(s[i]) {
        lemma_next_space(s, i + 1);
    }
}

pub fn space_after(v: &Vec<char>, from: usize) -> (r: usize)
    requires
        from <= v@.len(),
    ensures
        r == next_space(v@, from as int),
        from <= r <= v@.len(),
{
    let mut i: usize = from;
    while i < v.len()
        invariant
            from <= i <= v@.len(),
            next_space(v@, from as int) == next_space(v@, i as int),
        decreases v@.len() - i,
    {
        if white_space(v[i]) {
            return i;
        }
        i += 1;
    }
    i
}

// ---------------------------------------------------------------------------
// Numbers
// ---------------------------------------------------------------------------

/// The digit for a number below ten.
pub open spec fn digit(d: nat) -> char {
    (48 + d) as char
}

/// A number in decimal notation.
pub open spec fn decimal_text(n: nat) -> Seq<char>
    decreases n,
{
    if n < 10 {
        seq![digit(n)]
    } else {
        decimal_text(n / 10).push(digit(n % 10))
    }
}

/// A signed number in decimal notation.
pub open spec fn signed_text(n: int) -> Seq<char> {
    if n < 0 {
        seq!['-'] + decimal_text((-n) as nat)
    } else {
        decimal_text(n as nat)
    }
}

fn digit_char(d: u64) -> (r: char)
    requires
        d < 10,
    ensures
        r == digit(d as nat),
{
    let b: u8 = 48 + d as u8;
    b as char
}

pub fn decimal(n: u64) -> (r: String)
    ensures
        r@ == decimal_text(n as nat),
    decreases n,
{
    if n < 10 {
        let mut out = String::new();
        out.push(digit_char(n));
        assert(out@ =~= decimal_text(n as nat));
        out
    } else {
        let mut out = decimal(n / 10);
        out.push(digit_char(n % 10));
        out
    }
}

pub fn signed_decimal(n: i64) -> (r: String)
    ensures
        r@ == signed_text(n as int),
{
    if n < 0 {
        let mut out = String::new();
        out.push('-');
        let magnitude: u64 = if n == i64::MIN {
            0x8000_0000_0000_0000u64
        } else {
            (-n) as u64
        };
        let digits = decimal(magnitude);
        out.append(digits.as_str());
        assert(out@ =~= signed_text(n as int));
        out
    } else {
        decimal(n as u64)
    }
}

// ---------------------------------------------------------------------------
// Paths
// ---------------------------------------------------------------------------

/// A path below another: put behind it with a slash between, unless it starts at the root.
pub open spec fn path_below(a: Seq<char>, b: Seq<char>) -> Seq<char> {
    if b.len() > 0 && b[0] == '/' {
        b
    } else if a.len() == 0 || a.last() == '/' {
        a + b
    } else {
        a + seq!['/'] + b
    }
}

pub fn join_path(a: &str, b: &str) -> (r: String)
    ensures
        r@ == path_below(a@, b@),
{
    let va = chars_of(a);
    let vb = chars_of(b);
    if vb.len() > 0 && vb[0] == '/' {
        return b.to_owned();
    }
    let mut out = a.to_owned();
    if va.len() > 0 && va[va.len() - 1] != '/' {
        out.push('/');
        assert(out@ =~= a@ + seq!['/']);
    }
    out.append(b);
    out
}

// ---------------------------------------------------------------------------
// Laws
// ---------------------------------------------------------------------------

/// The space, the tab and the ends of lines are white space, and so are the spaces of other
/// scripts. No other character of ASCII that can be seen is.
pub proof fn law_white_space(c: char)
    ensures
        c == ' ' || c == '\t' || c == '\n' || c == '\r' ==> is_white_space(c),
        c == '\u{b}' || c == '\u{c}' || c == '\u{85}' || c == '\u{a0}' || c == '\u{1680}'
            ==> is_white_space(c),
        '\u{2000}' as u32 <= c as u32 <= '\u{200a}' as u32 ==> is_white_space(c),
        c == '\u{2028}' || c == '\u{2029}' || c == '\u{202f}' || c == '\u{205f}' || c
            == '\u{3000}' ==> is_white_space(c),
        is_white_space(c) ==> c as u32 <= 0x20 || c as u32 >= 0x85,
        0x21 <= c as u32 <= 0x7e ==> !is_white_space(c),
{
}

/// Trimming takes the white space at both ends of a text away, and nothing else.
pub proof fn law_trimming(before: Seq<char>, s: Seq<char>, after: Seq<char>)
    requires
        is_blank(before),
        is_blank(after),
        s.len() > 0,
        !is_white_space(s[0]),
        !is_white_space(s.last()),
    ensures
        trimmed(before + s + after) == s,
{
    let all = before + s + after;
    let n = before.len() as int;
    assert forall|k: int| 0 <= k < n implies is_white_space(#[trigger] all[k]) by {
        assert(all[k] == before[k]);
    }
    lemma_leading_skip(all, n);
    let rest = all.skip(n);
    assert(rest =~= s + after);
    assert(rest[0] == s[0]);
    let m = s.len() as int;
    assert forall|k: int| m <= k < rest.len() implies is_white_space(#[trigger] rest[k]) by {
        assert(rest[k] == after[k - m]);
    }
    lemma_trailing_skip(rest, m);
    assert(rest.take(m) =~= s);
}

/// A line ends with its line feed, and with the carriage return before that if there is one;
/// what follows are the lines of the rest. A text without a line feed is one line, and an
/// empty one is none.
pub proof fn law_lines(line: Seq<char>, rest: Seq<char>)
    requires
        !line.contains('\n'),
    ensures
        lines_of(Seq::empty()) == Seq::<Seq<char>>::empty(),
        line.len() > 0 ==> lines_of(line) == seq![line],
        line.len() == 0 || line.last() != '\r' ==> lines_of(line + seq!['\n'] + rest) == seq![line]
            + lines_of(rest),
        lines_of(line + seq!['\r', '\n'] + rest) == seq![line] + lines_of(rest),
{
    lemma_line(line, rest);
    let returned = line.push('\r');
    assert(!returned.contains('\n')) by {
        if returned.contains('\n') {
            let i = choose|i: int| 0 <= i < returned.len() && returned[i] == '\n';
            assert(line[i] == '\n');
        }
    }
    lemma_line(returned, rest);
    assert(returned + seq!['\n'] + rest =~= line + seq!['\r', '\n'] + rest);
    assert(returned.drop_last() =~= line);
    lemma_first_index(line, '\n', 0);
    if let Some(k) = first_index(line, '\n', 0) {
        assert(line.contains(line[k]));
    }
}

proof fn lemma_line(line: Seq<char>, rest: Seq<char>)
    requires
        !line.contains('\n'),
    ensures
        lines_of(line + seq!['\n'] + rest) == seq![without_return(line)] + lines_of(rest),
{
    let s = line + seq!['\n'] + rest;
    let n = line.len() as int;
    lemma_first_index(s, '\n', 0);
    assert(s[n] == '\n');
    let k = first_index(s, '\n', 0)->0;
    if k < n {
        assert(s[k] == line[k]);
        assert(line.contains(line[k]));
    }
    assert(k == n);
    assert(s.take(n) =~= line);
    assert(s.skip(n + 1) =~= rest);
}

/// The number that a run of decimal digits stands for.
pub open spec fn number_of(digits: Seq<char>) -> nat
    decreases digits.len(),
{
    if digits.len() == 0 {
        0
    } else {
        10 * number_of(digits.drop_last()) + (digits.last() as u32 - '0' as u32) as nat
    }
}

/// A number in decimal notation is made of digits, does not begin with a zero unless it is
/// zero, and stands for the number.
pub proof fn law_decimal_notation(n: nat)
    ensures
        decimal_text(n).len() > 0,
        forall|i: int|
            0 <= i < decimal_text(n).len() ==> '0' as u32 <= (#[trigger] decimal_text(n)[i]) as u32
                <= '9' as u32,
        n > 0 ==> decimal_text(n)[0] != '0',
        number_of(decimal_text(n)) == n,
    decreases n,
{
    if n < 10 {
        assert(decimal_text(n).drop_last() =~= Seq::<char>::empty());
        reveal_with_fuel(number_of, 2);
    } else {
        law_decimal_notation(n / 10);
        let d = decimal_text(n / 10);
        assert(decimal_text(n).drop_last() =~= d);
        assert(decimal_text(n)[0] == d[0]);
        assert forall|i: int| 0 <= i < decimal_text(n).len() implies '0' as u32 <= (
        #[trigger] decimal_text(n)[i]) as u32 <= '9' as u32 by {
            if i < d.len() {
                assert(decimal_text(n)[i] == d[i]);
            }
        }
    }
}

/// A signed number in decimal notation is the number without its sign, behind a minus sign
/// where it is below zero.
pub proof fn law_signed_notation(n: nat)
    ensures
        signed_text(n as int) == decimal_text(n),
        n > 0 ==> signed_text(-(n as int)) == seq!['-'] + decimal_text(n),
{
}

/// Taking a character away at an end of a text takes all of its run there away, and nothing
/// else.
pub proof fn law_one_character_is_taken_away(s: Seq<char>, c: char, n: nat)
    requires
        s.len() > 0,
        s[0] != c,
        s.last() != c,
    ensures
        without_trailing(s + Seq::new(n, |i: int| c), c) == s,
        without_leading(Seq::new(n, |i: int| c) + s, c) == s,
    decreases n,
{
    let all = Seq::new(n, |i: int| c);
    if n == 0 {
        assert(s + all =~= s);
        assert(all + s =~= s);
    } else {
        let fewer = Seq::new((n - 1) as nat, |i: int| c);
        law_one_character_is_taken_away(s, c, (n - 1) as nat);
        assert((s + all).drop_last() =~= s + fewer);
        assert((s + all).last() == c);
        assert((all + s).drop_first() =~= fewer + s);
        assert((all + s)[0] == c);
    }
}

/// A path that starts at the root is taken as it is; any other one is put behind the
/// directory, with exactly one slash between the two.
pub proof fn law_paths_are_joined(dir: Seq<char>, path: Seq<char>)
    requires
        dir.len() > 0,
        dir.last() != '/',
    ensures
        path_below(dir, seq!['/'] + path) == seq!['/'] + path,
        path.len() == 0 || path[0] != '/' ==> path_below(dir, path) == dir + seq!['/'] + path
            && path_below(dir + seq!['/'], path) == dir + seq!['/'] + path && path_below(
            Seq::empty(),
            path,
        ) == path,
{
    assert(Seq::<char>::empty() + path =~= path);
}


/// The first of some texts in another one is replaced, and nothing else.
pub proof fn law_the_first_is_replaced(
    before: Seq<char>,
    p: Seq<char>,
    after: Seq<char>,
    q: Seq<char>,
    s: Seq<char>,
)
    requires
        forall|i: int| 0 <= i < before.len() ==> !#[trigger] occurs_at(before + p + after, p, i),
        !contains_text(s, p),
    ensures
        replaced_once(before + p + after, p, q) == before + q + after,
        replaced_once(s, p, q) == s,
{
    let all = before + p + after;
    let n = before.len() as int;
    assert(all.subrange(n, n + p.len()) =~= p);
    assert(occurs_at(all, p, n));
    lemma_find_from(all, p, 0);
    lemma_find_from(s, p, 0);
    assert(all.take(n) =~= before);
    assert(all.skip(n + p.len()) =~= after);
}

} // verus!
