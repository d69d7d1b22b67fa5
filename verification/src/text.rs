//! Text operations with exact contracts over sequences of characters.
use vstd::prelude::*;

verus! {

/// `String::push`: appends one character.
pub assume_specification[ String::push ](s: &mut String, c: char)
    ensures
        final(s)@ == old(s)@.push(c),
;

/// Whether a character has the Unicode property Alphabetic.
pub uninterp spec fn is_alphabetic(c: char) -> bool;

/// `char::is_alphabetic`: whether Unicode's tables call the character
/// alphabetic; of ASCII those are the letters.
pub assume_specification[ char::is_alphabetic ](c: char) -> (r: bool)
    ensures
        r == is_alphabetic(c),
        (c as u32) < 128 ==> r == is_ascii_letter(c),
;

// ── Views ────────────────────────────────────────────────────────────────────

/// The characters of a string, in order.
pub fn chars_of(s: &str) -> (r: Vec<char>)
    ensures
        r@ == s@,
{
    let mut out: Vec<char> = Vec::new();
    for c in it: s.chars()
        invariant
            it.seq() == s@,
            out@ == it.seq().take(it.index() as int),
    {
        out.push(c);
    }
    out
}

/// The string made of the characters `from..to` of `v`.
pub fn string_of(v: &Vec<char>, from: usize, to: usize) -> (r: String)
    requires
        from <= to <= v@.len(),
    ensures
        r@ == v@.subrange(from as int, to as int),
{
    let mut out: String = String::new();
    let mut i: usize = from;
    while i < to
        invariant
            from <= i <= to <= v@.len(),
            out@ == v@.subrange(from as int, i as int),
        decreases to - i,
    {
        out.push(v[i]);
        i += 1;
    }
    out
}

/// Whether two strings hold the same characters.
pub fn same(a: &str, b: &str) -> (r: bool)
    ensures
        r == (a@ == b@),
{
    let x: Vec<char> = chars_of(a);
    let y: Vec<char> = chars_of(b);
    if x.len() != y.len() {
        return false;
    }
    let mut i: usize = 0;
    while i < x.len()
        invariant
            0 <= i <= x@.len(),
            x@ == a@,
            y@ == b@,
            x@.len() == y@.len(),
            forall|j: int| 0 <= j < i ==> x@[j] == y@[j],
        decreases x@.len() - i,
    {
        if x[i] != y[i] {
            return false;
        }
        i += 1;
    }
    assert(x@ =~= y@);
    true
}

// ── Concatenation ────────────────────────────────────────────────────────────

/// Two pieces of text, one after the other.
pub fn cat2(a: &str, b: &str) -> (r: String)
    ensures
        r@ == a@ + b@,
{
    let mut s: String = a.to_string();
    s.append(b);
    s
}

/// Three pieces of text, one after the other.
pub fn cat3(a: &str, b: &str, c: &str) -> (r: String)
    ensures
        r@ == a@ + b@ + c@,
{
    let mut s: String = cat2(a, b);
    s.append(c);
    s
}

/// Four pieces of text, one after the other.
pub fn cat4(a: &str, b: &str, c: &str, d: &str) -> (r: String)
    ensures
        r@ == a@ + b@ + c@ + d@,
{
    let mut s: String = cat3(a, b, c);
    s.append(d);
    s
}

/// Five pieces of text, one after the other.
pub fn cat5(a: &str, b: &str, c: &str, d: &str, e: &str) -> (r: String)
    ensures
        r@ == a@ + b@ + c@ + d@ + e@,
{
    let mut s: String = cat4(a, b, c, d);
    s.append(e);
    s
}

/// Six pieces of text, one after the other.
pub fn cat6(a: &str, b: &str, c: &str, d: &str, e: &str, f: &str) -> (r: String)
    ensures
        r@ == a@ + b@ + c@ + d@ + e@ + f@,
{
    let mut s: String = cat5(a, b, c, d, e);
    s.append(f);
    s
}

/// Seven pieces of text, one after the other.
pub fn cat7(a: &str, b: &str, c: &str, d: &str, e: &str, f: &str, g: &str) -> (r: String)
    ensures
        r@ == a@ + b@ + c@ + d@ + e@ + f@ + g@,
{
    let mut s: String = cat6(a, b, c, d, e, f);
    s.append(g);
    s
}

// ── Searching ────────────────────────────────────────────────────────────────

/// Position of the first `c` in `s`, or the length of `s` where there is none.
pub open spec fn index_of(s: Seq<char>, c: char) -> int
    decreases s.len(),
{
    if s.len() == 0 || s[0] == c {
        0
    } else {
        1 + index_of(s.drop_first(), c)
    }
}

/// Position of the last `c` in `s`, or -1 where there is none.
pub open spec fn last_index_of(s: Seq<char>, c: char) -> int
    decreases s.len(),
{
    if s.len() == 0 {
        -1
    } else if s.last() == c {
        s.len() - 1
    } else {
        last_index_of(s.drop_last(), c)
    }
}

/// A position with nothing but other characters before it is the first one.
pub proof fn lemma_index_of(s: Seq<char>, c: char, i: int)
    requires
        0 <= i <= s.len(),
        forall|j: int| 0 <= j < i ==> s[j] != c,
        i < s.len() ==> s[i] == c,
    ensures
        index_of(s, c) == i,
    decreases s.len(),
{
    if i > 0 {
        assert forall|j: int| 0 <= j < i - 1 implies s.drop_first()[j] != c by {
            assert(s.drop_first()[j] == s[j + 1]);
        }
        lemma_index_of(s.drop_first(), c, i - 1);
    }
}

/// What `index_of` promises.
pub proof fn lemma_index_of_bounds(s: Seq<char>, c: char)
    ensures
        0 <= index_of(s, c) <= s.len(),
        index_of(s, c) < s.len() ==> s[index_of(s, c)] == c,
        forall|j: int| 0 <= j < index_of(s, c) ==> s[j] != c,
        s.contains(c) <==> index_of(s, c) < s.len(),
    decreases s.len(),
{
    if s.len() > 0 && s[0] != c {
        lemma_index_of_bounds(s.drop_first(), c);
        let k = index_of(s.drop_first(), c);
        assert forall|j: int| 0 <= j < index_of(s, c) implies s[j] != c by {
            if j > 0 {
                assert(s.drop_first()[j - 1] == s[j]);
            }
        }
        if s.contains(c) {
            let w = choose|w: int| 0 <= w < s.len() && s[w] == c;
            assert(s.drop_first()[w - 1] == c);
        }
    }
}

/// A position with nothing but other characters behind it is the last one.
pub proof fn lemma_last_index_of(s: Seq<char>, c: char, i: int)
    requires
        -1 <= i < s.len(),
        forall|j: int| i < j < s.len() ==> s[j] != c,
        i >= 0 ==> s[i] == c,
    ensures
        last_index_of(s, c) == i,
    decreases s.len(),
{
    if i < s.len() - 1 {
        lemma_last_index_of(s.drop_last(), c, i);
    }
}

/// What `last_index_of` promises.
pub proof fn lemma_last_index_of_bounds(s: Seq<char>, c: char)
    ensures
        -1 <= last_index_of(s, c) < s.len(),
        last_index_of(s, c) >= 0 ==> s[last_index_of(s, c)] == c,
        forall|j: int| last_index_of(s, c) < j < s.len() ==> s[j] != c,
        s.contains(c) <==> last_index_of(s, c) >= 0,
    decreases s.len(),
{
    if s.len() > 0 && s.last() != c {
        lemma_last_index_of_bounds(s.drop_last(), c);
        assert forall|j: int| last_index_of(s, c) < j < s.len() implies s[j] != c by {
            if j < s.len() - 1 {
                assert(s.drop_last()[j] == s[j]);
            }
        }
        if s.contains(c) {
            let w = choose|w: int| 0 <= w < s.len() && s[w] == c;
            assert(s.drop_last()[w] == c);
        }
    }
}

/// Whether `needle` stands in `s` at position `i`.
pub open spec fn stands_at(s: Seq<char>, needle: Seq<char>, i: int) -> bool {
    0 <= i && i + needle.len() <= s.len() && s.subrange(i, i + needle.len() as int) == needle
}

/// Whether `needle` stands anywhere in `s`.
pub open spec fn holds(s: Seq<char>, needle: Seq<char>) -> bool {
    exists|i: int| stands_at(s, needle, i)
}

/// Whether `s` begins with `prefix`.
pub open spec fn begins(s: Seq<char>, prefix: Seq<char>) -> bool {
    stands_at(s, prefix, 0)
}

/// Whether `s` ends with `suffix`.
pub open spec fn ends(s: Seq<char>, suffix: Seq<char>) -> bool {
    stands_at(s, suffix, s.len() - suffix.len())
}

/// Whether the characters of `needle` stand in `s` at position `at`.
pub fn matches_at(s: &Vec<char>, needle: &Vec<char>, at: usize) -> (r: bool)
    requires
        at <= s@.len(),
    ensures
        r == stands_at(s@, needle@, at as int),
{
    let n: usize = s.len();
    if needle.len() > n - at {
        return false;
    }
    let mut i: usize = 0;
    while i < needle.len()
        invariant
            0 <= i <= needle@.len(),
            n == s@.len(),
            at + needle@.len() <= s@.len(),
            forall|j: int| 0 <= j < i ==> s@[at + j] == needle@[j],
        decreases needle@.len() - i,
    {
        if s[at + i] != needle[i] {
            assert(s@.subrange(at as int, at + needle@.len() as int)[i as int] != needle@[i as int]);
            return false;
        }
        i += 1;
    }
    assert(s@.subrange(at as int, at + needle@.len() as int) =~= needle@);
    true
}

/// Position (in characters) of the first `needle` in `s`.
pub fn find(s: &str, needle: &str) -> (r: Option<usize>)
    ensures
        r is Some <==> holds(s@, needle@),
        r matches Some(i) ==> stands_at(s@, needle@, i as int) && forall|j: int|
            0 <= j < i ==> !stands_at(s@, needle@, j),
{
    let hay: Vec<char> = chars_of(s);
    let pin: Vec<char> = chars_of(needle);
    let mut i: usize = 0;
    while i <= hay.len()
        invariant
            hay@ == s@,
            pin@ == needle@,
            i <= hay@.len() + 1,
            forall|j: int| 0 <= j < i ==> !stands_at(s@, needle@, j),
        decreases hay@.len() + 1 - i,
    {
        if matches_at(&hay, &pin, i) {
            return Some(i);
        }
        if i == hay.len() {
            return None;
        }
        i += 1;
    }
    None
}

/// Whether `needle` stands anywhere in `s`.
pub fn contains(s: &str, needle: &str) -> (r: bool)
    ensures
        r == holds(s@, needle@),
{
    find(s, needle).is_some()
}

/// What is left of `s` behind `prefix`, where `s` begins with it.
pub open spec fn without_prefix(s: Seq<char>, prefix: Seq<char>) -> Option<Seq<char>> {
    if begins(s, prefix) {
        Some(s.skip(prefix.len() as int))
    } else {
        None
    }
}

/// What is left of `s` in front of `suffix`, where `s` ends with it.
pub open spec fn without_suffix(s: Seq<char>, suffix: Seq<char>) -> Option<Seq<char>> {
    if ends(s, suffix) {
        Some(s.take(s.len() - suffix.len()))
    } else {
        None
    }
}

/// What is left of `s` behind `prefix`, where `s` begins with it.
pub fn strip_prefix(s: &str, prefix: &str) -> (r: Option<String>)
    ensures
        r.deep_view() == without_prefix(s@, prefix@),
{
    let hay: Vec<char> = chars_of(s);
    let pin: Vec<char> = chars_of(prefix);
    if matches_at(&hay, &pin, 0) {
        Some(string_of(&hay, pin.len(), hay.len()))
    } else {
        None
    }
}

/// What is left of `s` in front of `suffix`, where `s` ends with it.
pub fn strip_suffix(s: &str, suffix: &str) -> (r: Option<String>)
    ensures
        r.deep_view() == without_suffix(s@, suffix@),
{
    let hay: Vec<char> = chars_of(s);
    let pin: Vec<char> = chars_of(suffix);
    if pin.len() <= hay.len() && matches_at(&hay, &pin, hay.len() - pin.len()) {
        Some(string_of(&hay, 0, hay.len() - pin.len()))
    } else {
        None
    }
}

/// The first `n` characters of `s`, or all of `s` where it is shorter.
pub fn take_chars(s: &str, n: usize) -> (r: String)
    ensures
        r@ == s@.take(if n < s@.len() { n as int } else { s@.len() as int }),
{
    let v: Vec<char> = chars_of(s);
    if n < v.len() {
        string_of(&v, 0, n)
    } else {
        string_of(&v, 0, v.len())
    }
}

// ── Cutting by bytes ─────────────────────────────────────────────────────────

/// Number of bytes of a character in UTF-8.
pub open spec fn char_bytes(c: char) -> int {
    if (c as u32) < 0x80 {
        1
    } else if (c as u32) < 0x800 {
        2
    } else if (c as u32) < 0x10000 {
        3
    } else {
        4
    }
}

/// Number of bytes of a text in UTF-8.
pub open spec fn byte_len(s: Seq<char>) -> int
    decreases s.len(),
{
    if s.len() == 0 {
        0
    } else {
        byte_len(s.drop_last()) + char_bytes(s.last())
    }
}

/// The longest beginning of `s` that has at most `n` bytes.
pub open spec fn first_bytes(s: Seq<char>, n: int) -> Seq<char>
    decreases s.len(),
{
    if s.len() == 0 || byte_len(s) <= n {
        s
    } else {
        first_bytes(s.drop_last(), n)
    }
}

/// Whether `s` is shorter than `n` bytes, or can be cut behind `n` bytes: no
/// character stands across the cut.
pub open spec fn cuts(s: Seq<char>, n: int) -> bool {
    byte_len(s) < n || byte_len(first_bytes(s, n)) == n
}

proof fn lemma_first_bytes(s: Seq<char>, n: int, k: int)
    requires
        0 <= k <= s.len(),
        byte_len(s.take(k)) <= n,
        k < s.len() ==> byte_len(s.take(k + 1)) > n,
    ensures
        first_bytes(s, n) == s.take(k),
    decreases s.len(),
{
    if k == s.len() {
        assert(s.take(k) =~= s);
    } else {
        lemma_byte_len_grows(s, k + 1);
        if k < s.len() - 1 {
            assert(s.drop_last().take(k) =~= s.take(k));
            assert(s.drop_last().take(k + 1) =~= s.take(k + 1));
        } else {
            assert(s.drop_last() =~= s.take(k));
            assert(s.drop_last().take(k) =~= s.take(k));
        }
        lemma_first_bytes(s.drop_last(), n, k);
    }
}

proof fn lemma_byte_len_grows(s: Seq<char>, k: int)
    requires
        0 <= k <= s.len(),
    ensures
        byte_len(s.take(k)) <= byte_len(s),
        k <= byte_len(s.take(k)),
    decreases s.len() + (s.len() - k),
{
    if k == s.len() {
        assert(s.take(k) =~= s);
        if s.len() > 0 {
            lemma_byte_len_grows(s.drop_last(), s.len() - 1);
            assert(s.drop_last().take(s.len() - 1) =~= s.drop_last());
        }
    } else {
        lemma_byte_len_grows(s.drop_last(), k);
        assert(s.drop_last().take(k) =~= s.take(k));
    }
}

fn bytes_of_char(c: char) -> (r: u64)
    ensures
        r == char_bytes(c),
{
    let n: u32 = c as u32;
    if n < 0x80 {
        1
    } else if n < 0x800 {
        2
    } else if n < 0x10000 {
        3
    } else {
        4
    }
}

/// How many characters of `v` it takes to have at least `n` bytes, or all of
/// them, and how many bytes they have.
fn reach(v: &Vec<char>, n: u32) -> (r: (usize, u64))
    ensures
        r.0 <= v@.len(),
        r.1 == byte_len(v@.take(r.0 as int)),
        r.1 < n ==> r.0 == v@.len(),
        r.0 > 0 ==> byte_len(v@.take(r.0 - 1)) < n,
{
    let mut i: usize = 0;
    let mut bytes: u64 = 0;
    assert(v@.take(0) =~= Seq::<char>::empty());
    while i < v.len() && bytes < n as u64
        invariant
            0 <= i <= v@.len(),
            bytes == byte_len(v@.take(i as int)),
            bytes < n + 4,
            i > 0 ==> byte_len(v@.take(i - 1)) < n,
        decreases v@.len() - i,
    {
        assert(v@.take(i + 1).drop_last() =~= v@.take(i as int));
        assert(v@.take(i + 1).last() == v@[i as int]);
        bytes = bytes + bytes_of_char(v[i]);
        i += 1;
    }
    (i, bytes)
}

proof fn lemma_reach(s: Seq<char>, n: int, k: int)
    requires
        0 <= k <= s.len(),
        byte_len(s.take(k)) < n ==> k == s.len(),
        k > 0 ==> byte_len(s.take(k - 1)) < n,
        n > 0,
    ensures
        byte_len(s.take(k)) < n ==> byte_len(s) < n,
        byte_len(s.take(k)) >= n ==> byte_len(s) >= n,
        byte_len(s.take(k)) == n ==> first_bytes(s, n) == s.take(k),
        byte_len(s.take(k)) > n ==> first_bytes(s, n) == s.take(k - 1),
{
    lemma_byte_len_grows(s, k);
    if byte_len(s.take(k)) < n {
        assert(s.take(k) =~= s);
    } else if byte_len(s.take(k)) == n {
        if k < s.len() {
            assert(s.take(k + 1).drop_last() =~= s.take(k));
        }
        lemma_first_bytes(s, n, k);
    } else {
        assert(s.take(0) =~= Seq::<char>::empty());
        lemma_first_bytes(s, n, k - 1);
    }
}

/// Whether `s` is shorter than `n` bytes, or can be cut behind `n` bytes.
pub fn can_cut(s: &str, n: u32) -> (r: bool)
    requires
        n > 0,
    ensures
        r == cuts(s@, n as int),
{
    let v: Vec<char> = chars_of(s);
    let (k, bytes) = reach(&v, n);
    proof {
        lemma_reach(v@, n as int, k as int);
    }
    bytes <= n as u64
}

/// The first `n` bytes of `s`, where it has as many.
pub fn cut(s: &str, n: u32) -> (r: Option<String>)
    requires
        n > 0,
        cuts(s@, n as int),
    ensures
        match r {
            Some(p) => byte_len(s@) >= n && p@ == first_bytes(s@, n as int),
            None => byte_len(s@) < n,
        },
{
    let v: Vec<char> = chars_of(s);
    let (k, bytes) = reach(&v, n);
    proof {
        lemma_reach(v@, n as int, k as int);
        assert(v@.subrange(0, k as int) =~= v@.take(k as int));
    }
    if bytes < n as u64 {
        None
    } else {
        Some(string_of(&v, 0, k))
    }
}

/// A text of one-byte characters can be cut anywhere, and its bytes are its
/// characters.
pub proof fn law_ascii_text_is_cut_by_characters(s: Seq<char>, n: int)
    requires
        n >= 0,
        forall|i: int| 0 <= i < s.len() ==> (#[trigger] s[i]) as u32 <= 0x7f,
    ensures
        byte_len(s) == s.len(),
        cuts(s, n),
        first_bytes(s, n) == s.take(if n < s.len() { n } else { s.len() as int }),
    decreases s.len(),
{
    if s.len() > 0 {
        law_ascii_text_is_cut_by_characters(s.drop_last(), n);
        let k = if n < s.len() {
            n
        } else {
            s.len() as int
        };
        if n < s.len() {
            assert(s.drop_last().take(if n < s.len() - 1 { n } else { s.len() - 1 }) =~= s.take(k));
        } else {
            assert(s.take(k) =~= s);
        }
    } else {
        assert(s.take(0) =~= s);
    }
}

// ── Splitting ────────────────────────────────────────────────────────────────

/// The pieces of `s` between the `sep` characters; there is always one more
/// piece than there are separators.
pub open spec fn pieces(s: Seq<char>, sep: char) -> Seq<Seq<char>>
    decreases s.len(),
{
    let i = index_of(s, sep);
    if 0 <= i < s.len() {
        seq![s.take(i)] + pieces(s.skip(i + 1), sep)
    } else {
        seq![s]
    }
}

/// `s` cut at its first `sep`.
pub open spec fn cut_first(s: Seq<char>, sep: char) -> Option<(Seq<char>, Seq<char>)> {
    let i = index_of(s, sep);
    if 0 <= i < s.len() {
        Some((s.take(i), s.skip(i + 1)))
    } else {
        None
    }
}

/// `s` cut at its last `sep`.
pub open spec fn cut_last(s: Seq<char>, sep: char) -> Option<(Seq<char>, Seq<char>)> {
    let i = last_index_of(s, sep);
    if i >= 0 {
        Some((s.take(i), s.skip(i + 1)))
    } else {
        None
    }
}

/// The pieces of `s` between the `sep` characters.
pub fn split(s: &str, sep: char) -> (r: Vec<String>)
    ensures
        r.deep_view() == pieces(s@, sep),
        r@.len() >= 1,
{
    let v: Vec<char> = chars_of(s);
    let mut out: Vec<String> = Vec::new();
    let mut start: usize = 0;
    let mut i: usize = 0;
    assert(v@.skip(0) =~= v@);
    assert(out.deep_view() + pieces(v@, sep) =~= pieces(v@, sep));
    while i < v.len()
        invariant
            v@ == s@,
            0 <= start <= i <= v@.len(),
            forall|j: int| start <= j < i ==> v@[j] != sep,
            out.deep_view() + pieces(v@.skip(start as int), sep) == pieces(v@, sep),
        decreases v@.len() - i,
    {
        if v[i] == sep {
            let piece: String = string_of(&v, start, i);
            proof {
                let rest = v@.skip(start as int);
                lemma_index_of(rest, sep, i - start);
                assert(rest.take(i - start) =~= piece@);
                assert(rest.skip(i - start + 1) =~= v@.skip(i + 1));
                assert(out.deep_view() + (seq![piece@] + pieces(v@.skip(i + 1), sep))
                    =~= out.deep_view().push(piece@) + pieces(v@.skip(i + 1), sep));
            }
            let ghost before = out.deep_view();
            out.push(piece);
            assert(out.deep_view() =~= before.push(piece@));
            start = i + 1;
        }
        i += 1;
    }
    let piece: String = string_of(&v, start, v.len());
    proof {
        let rest = v@.skip(start as int);
        lemma_index_of(rest, sep, rest.len() as int);
        assert(rest =~= piece@);
    }
    let ghost before = out.deep_view();
    out.push(piece);
    assert(out.deep_view() =~= before.push(piece@));
    assert(before + seq![piece@] =~= before.push(piece@));
    out
}

/// A character behind a text that is no separator changes the last piece alone.
pub proof fn lemma_pieces_push(s: Seq<char>, c: char, sep: char)
    requires
        c != sep,
    ensures
        pieces(s.push(c), sep).len() == pieces(s, sep).len(),
        pieces(s, sep).len() >= 1,
        forall|k: int|
            0 <= k < pieces(s, sep).len() - 1 ==> #[trigger] pieces(s.push(c), sep)[k] == pieces(
                s,
                sep,
            )[k],
    decreases s.len(),
{
    let t = s.push(c);
    let i = index_of(s, sep);
    lemma_index_of_bounds(s, sep);
    assert forall|j: int| 0 <= j < i implies t[j] != sep by {
        assert(t[j] == s[j]);
    }
    if i < s.len() {
        lemma_index_of(t, sep, i);
        assert(t.take(i) =~= s.take(i));
        assert(t.skip(i + 1) =~= s.skip(i + 1).push(c));
        lemma_pieces_push(s.skip(i + 1), c, sep);
        let rest = pieces(s.skip(i + 1), sep);
        let grown = pieces(t.skip(i + 1), sep);
        assert forall|k: int| 0 <= k < pieces(s, sep).len() - 1 implies #[trigger] pieces(t, sep)[k]
            == pieces(s, sep)[k] by {
            if k > 0 {
                assert(pieces(t, sep)[k] == grown[k - 1]);
                assert(pieces(s, sep)[k] == rest[k - 1]);
            }
        }
    } else {
        lemma_index_of(t, sep, t.len() as int);
    }
}

/// `s` cut at its first `sep`.
pub fn split_once(s: &str, sep: char) -> (r: Option<(String, String)>)
    ensures
        r.deep_view() == cut_first(s@, sep),
{
    let v: Vec<char> = chars_of(s);
    let mut i: usize = 0;
    while i < v.len()
        invariant
            v@ == s@,
            0 <= i <= v@.len(),
            forall|j: int| 0 <= j < i ==> v@[j] != sep,
        decreases v@.len() - i,
    {
        if v[i] == sep {
            proof {
                lemma_index_of(v@, sep, i as int);
            }
            return Some((string_of(&v, 0, i), string_of(&v, i + 1, v.len())));
        }
        i += 1;
    }
    proof {
        lemma_index_of(v@, sep, i as int);
    }
    None
}

/// `s` cut at its last `sep`.
pub fn rsplit_once(s: &str, sep: char) -> (r: Option<(String, String)>)
    ensures
        r.deep_view() == cut_last(s@, sep),
{
    let v: Vec<char> = chars_of(s);
    let mut i: usize = v.len();
    while i > 0
        invariant
            v@ == s@,
            0 <= i <= v@.len(),
            forall|j: int| i <= j < v@.len() ==> v@[j] != sep,
        decreases i,
    {
        i -= 1;
        if v[i] == sep {
            proof {
                lemma_last_index_of(v@, sep, i as int);
            }
            return Some((string_of(&v, 0, i), string_of(&v, i + 1, v.len())));
        }
    }
    proof {
        lemma_last_index_of(v@, sep, -1);
    }
    None
}

/// The pieces of text with `sep` between each two of them.
pub open spec fn joined(parts: Seq<Seq<char>>, sep: Seq<char>) -> Seq<char>
    decreases parts.len(),
{
    if parts.len() == 0 {
        Seq::empty()
    } else if parts.len() == 1 {
        parts[0]
    } else {
        joined(parts.drop_last(), sep) + sep + parts.last()
    }
}

proof fn lemma_pieces_append(s: Seq<char>, t: Seq<char>, sep: char)
    requires
        !t.contains(sep),
    ensures
        pieces(s + seq![sep] + t, sep) == pieces(s, sep).push(t),
    decreases s.len(),
{
    let all = s + seq![sep] + t;
    let i = index_of(s, sep);
    lemma_index_of_bounds(s, sep);
    assert forall|j: int| 0 <= j < i implies all[j] != sep by {
        assert(all[j] == s[j]);
    }
    lemma_index_of(all, sep, i);
    assert(all.take(i) =~= s.take(i));
    if i < s.len() {
        let rest = s.skip(i + 1);
        assert(all.skip(i + 1) =~= rest + seq![sep] + t);
        lemma_pieces_append(rest, t, sep);
        assert(seq![s.take(i)] + pieces(rest, sep).push(t) =~= (seq![s.take(i)] + pieces(
            rest,
            sep,
        )).push(t));
    } else {
        assert(all.skip(i + 1) =~= t);
        lemma_index_of_bounds(t, sep);
        assert(s.take(i) =~= s);
        assert(pieces(t, sep) == seq![t]);
        assert(pieces(s, sep) == seq![s]);
        assert(pieces(all, sep) == seq![s] + seq![t]);
        assert(seq![s] + seq![t] =~= seq![s].push(t));
    }
}

/// Pieces that hold no separator come apart again once they are joined.
pub proof fn law_joined_pieces_come_apart(parts: Seq<Seq<char>>, sep: char)
    requires
        parts.len() > 0,
        forall|i: int| 0 <= i < parts.len() ==> !(#[trigger] parts[i]).contains(sep),
    ensures
        pieces(joined(parts, seq![sep]), sep) == parts,
    decreases parts.len(),
{
    assert(!parts[parts.len() - 1].contains(sep));
    if parts.len() == 1 {
        lemma_index_of_bounds(parts[0], sep);
        assert(pieces(parts[0], sep) =~= parts);
    } else {
        let front = parts.drop_last();
        assert forall|i: int| 0 <= i < front.len() implies !(#[trigger] front[i]).contains(sep) by {
            assert(front[i] == parts[i]);
        }
        law_joined_pieces_come_apart(front, sep);
        lemma_pieces_append(joined(front, seq![sep]), parts.last(), sep);
        assert(front.push(parts.last()) =~= parts);
    }
}

/// The strings `from..` of `parts` with `sep` between each two of them.
pub fn join(parts: &Vec<String>, from: usize, sep: &str) -> (r: String)
    requires
        from <= parts@.len(),
    ensures
        r@ == joined(parts.deep_view().skip(from as int), sep@),
{
    let mut out: String = String::new();
    let mut i: usize = from;
    let ghost all = parts.deep_view().skip(from as int);
    assert(all.take(0) =~= Seq::<Seq<char>>::empty());
    while i < parts.len()
        invariant
            from <= i <= parts@.len(),
            all == parts.deep_view().skip(from as int),
            out@ == joined(all.take(i - from), sep@),
        decreases parts@.len() - i,
    {
        if i > from {
            out.append(sep);
        }
        out.append(parts[i].as_str());
        i += 1;
        proof {
            let grown = all.take(i - from);
            assert(grown.drop_last() =~= all.take(i - from - 1));
            assert(grown.last() == parts@[i - 1]@);
            if i - from == 1 {
                assert(out@ =~= grown[0]);
            }
        }
    }
    assert(all.take(i - from) =~= all);
    out
}

// ── Lines, blanks and trimming ───────────────────────────────────────────────

/// `s` without one carriage return at its end.
pub open spec fn without_cr(s: Seq<char>) -> Seq<char> {
    if s.len() > 0 && s.last() == '\r' {
        s.drop_last()
    } else {
        s
    }
}

/// The lines of `s`: each ends with a line feed, or a carriage return and a
/// line feed; the last one may end with the text.
pub open spec fn lines_of(s: Seq<char>) -> Seq<Seq<char>>
    decreases s.len(),
{
    let i = index_of(s, '\n');
    if s.len() == 0 {
        Seq::empty()
    } else if 0 <= i < s.len() {
        seq![without_cr(s.take(i))] + lines_of(s.skip(i + 1))
    } else {
        seq![s]
    }
}

/// The lines of `s`.
pub fn lines(s: &str) -> (r: Vec<String>)
    ensures
        r.deep_view() == lines_of(s@),
{
    let v: Vec<char> = chars_of(s);
    let mut out: Vec<String> = Vec::new();
    let mut start: usize = 0;
    let mut i: usize = 0;
    assert(v@.skip(0) =~= v@);
    assert(out.deep_view() + lines_of(v@) =~= lines_of(v@));
    while i < v.len()
        invariant
            v@ == s@,
            0 <= start <= i <= v@.len(),
            forall|j: int| start <= j < i ==> v@[j] != '\n',
            out.deep_view() + lines_of(v@.skip(start as int)) == lines_of(v@),
        decreases v@.len() - i,
    {
        if v[i] == '\n' {
            let end: usize = if i > start && v[i - 1] == '\r' {
                i - 1
            } else {
                i
            };
            let line: String = string_of(&v, start, end);
            proof {
                let rest = v@.skip(start as int);
                lemma_index_of(rest, '\n', i - start);
                let raw = rest.take(i - start);
                assert(raw.len() > 0 ==> raw.last() == v@[i - 1]);
                assert(without_cr(raw) =~= line@);
                assert(rest.skip(i - start + 1) =~= v@.skip(i + 1));
                assert(out.deep_view() + (seq![line@] + lines_of(v@.skip(i + 1)))
                    =~= out.deep_view().push(line@) + lines_of(v@.skip(i + 1)));
            }
            let ghost before = out.deep_view();
            out.push(line);
            assert(out.deep_view() =~= before.push(line@));
            start = i + 1;
        }
        i += 1;
    }
    let ghost before = out.deep_view();
    if start < v.len() {
        let line: String = string_of(&v, start, v.len());
        proof {
            let rest = v@.skip(start as int);
            lemma_index_of(rest, '\n', rest.len() as int);
            assert(rest =~= line@);
            assert(before + seq![line@] =~= before.push(line@));
        }
        out.push(line);
        assert(out.deep_view() =~= before.push(line@));
    } else {
        assert(v@.skip(start as int) =~= Seq::<char>::empty());
        assert(before + Seq::<Seq<char>>::empty() =~= before);
    }
    out
}

/// Whether a character has the Unicode property White_Space.
pub open spec fn is_blank(c: char) -> bool {
    let n = c as u32;
    0x09 <= n <= 0x0d || n == 0x20 || n == 0x85 || n == 0xa0 || n == 0x1680 || 0x2000 <= n <= 0x200a
        || n == 0x2028 || n == 0x2029 || n == 0x202f || n == 0x205f || n == 0x3000
}

/// Whether a character has the Unicode property White_Space.
pub fn blank(c: char) -> (r: bool)
    ensures
        r == is_blank(c),
{
    let n: u32 = c as u32;
    (0x09 <= n && n <= 0x0d) || n == 0x20 || n == 0x85 || n == 0xa0 || n == 0x1680 || (0x2000 <= n
        && n <= 0x200a) || n == 0x2028 || n == 0x2029 || n == 0x202f || n == 0x205f || n == 0x3000
}

/// `s` without the characters at its start that satisfy `drop`.
pub open spec fn trim_front(s: Seq<char>, drop: spec_fn(char) -> bool) -> Seq<char>
    decreases s.len(),
{
    if s.len() > 0 && drop(s[0]) {
        trim_front(s.drop_first(), drop)
    } else {
        s
    }
}

/// `s` without the characters at its end that satisfy `drop`.
pub open spec fn trim_back(s: Seq<char>, drop: spec_fn(char) -> bool) -> Seq<char>
    decreases s.len(),
{
    if s.len() > 0 && drop(s.last()) {
        trim_back(s.drop_last(), drop)
    } else {
        s
    }
}

/// `s` without blanks at either end.
pub open spec fn trimmed(s: Seq<char>) -> Seq<char> {
    trim_back(trim_front(s, |c: char| is_blank(c)), |c: char| is_blank(c))
}

/// What trimming the front of a text leaves.
pub proof fn lemma_trim_front(s: Seq<char>, drop: spec_fn(char) -> bool, a: int)
    requires
        0 <= a <= s.len(),
        forall|j: int| 0 <= j < a ==> drop(#[trigger] s[j]),
        a < s.len() ==> !drop(s[a]),
    ensures
        trim_front(s, drop) == s.skip(a),
    decreases s.len(),
{
    if a > 0 {
        assert(drop(s[0]));
        assert forall|j: int| 0 <= j < a - 1 implies drop(#[trigger] s.drop_first()[j]) by {
            assert(drop(s[j + 1]));
        }
        lemma_trim_front(s.drop_first(), drop, a - 1);
        assert(s.drop_first().skip(a - 1) =~= s.skip(a));
    } else {
        assert(s.skip(0) =~= s);
    }
}

/// What trimming the back of a text leaves.
pub proof fn lemma_trim_back(s: Seq<char>, drop: spec_fn(char) -> bool, b: int)
    requires
        0 <= b <= s.len(),
        forall|j: int| b <= j < s.len() ==> drop(#[trigger] s[j]),
        b > 0 ==> !drop(s[b - 1]),
    ensures
        trim_back(s, drop) == s.take(b),
    decreases s.len(),
{
    if b < s.len() {
        assert(drop(s[s.len() - 1]));
        lemma_trim_back(s.drop_last(), drop, b);
        assert(s.drop_last().take(b) =~= s.take(b));
    } else {
        assert(s.take(b) =~= s);
    }
}

/// `s` without blanks at either end.
pub fn trim(s: &str) -> (r: String)
    ensures
        r@ == trimmed(s@),
{
    let v: Vec<char> = chars_of(s);
    let mut a: usize = 0;
    while a < v.len() && blank(v[a])
        invariant
            0 <= a <= v@.len(),
            forall|j: int| 0 <= j < a ==> is_blank(#[trigger] v@[j]),
        decreases v@.len() - a,
    {
        a += 1;
    }
    let mut b: usize = v.len();
    while b > a && blank(v[b - 1])
        invariant
            a <= b <= v@.len(),
            forall|j: int| b <= j < v@.len() ==> is_blank(#[trigger] v@[j]),
        decreases b,
    {
        b -= 1;
    }
    proof {
        let drop = |c: char| is_blank(c);
        lemma_trim_front(v@, drop, a as int);
        let rest = v@.skip(a as int);
        assert forall|j: int| b - a <= j < rest.len() implies drop(#[trigger] rest[j]) by {
            assert(is_blank(v@[a + j]));
        }
        lemma_trim_back(rest, drop, b - a);
        assert(rest.take(b - a) =~= v@.subrange(a as int, b as int));
    }
    string_of(&v, a, b)
}

/// `s` without the `c` characters at either end.
pub fn trim_matches(s: &str, c: char) -> (r: String)
    ensures
        r@ == trim_back(trim_front(s@, |x: char| x == c), |x: char| x == c),
{
    let v: Vec<char> = chars_of(s);
    let mut a: usize = 0;
    while a < v.len() && v[a] == c
        invariant
            0 <= a <= v@.len(),
            forall|j: int| 0 <= j < a ==> v@[j] == c,
        decreases v@.len() - a,
    {
        a += 1;
    }
    let mut b: usize = v.len();
    while b > a && v[b - 1] == c
        invariant
            a <= b <= v@.len(),
            forall|j: int| b <= j < v@.len() ==> v@[j] == c,
        decreases b,
    {
        b -= 1;
    }
    proof {
        let drop = |x: char| x == c;
        lemma_trim_front(v@, drop, a as int);
        let rest = v@.skip(a as int);
        lemma_trim_back(rest, drop, b - a);
        assert(rest.take(b - a) =~= v@.subrange(a as int, b as int));
    }
    string_of(&v, a, b)
}

/// `s` without what stands behind its last alphabetic character.
pub fn trim_end_to_letter(s: &str) -> (r: String)
    ensures
        r@ == trim_back(s@, |c: char| !is_alphabetic(c)),
{
    let v: Vec<char> = chars_of(s);
    let mut b: usize = v.len();
    while b > 0 && !v[b - 1].is_alphabetic()
        invariant
            b <= v@.len(),
            forall|j: int| b <= j < v@.len() ==> !is_alphabetic(#[trigger] v@[j]),
        decreases b,
    {
        b -= 1;
    }
    proof {
        let drop = |c: char| !is_alphabetic(c);
        assert forall|j: int| b <= j < v@.len() implies drop(#[trigger] v@[j]) by {
            assert(!is_alphabetic(v@[j]));
        }
        lemma_trim_back(v@, drop, b as int);
        assert(v@.take(b as int) =~= v@.subrange(0, b as int));
    }
    string_of(&v, 0, b)
}

/// Whether a character is one of the five blanks of ASCII.
pub open spec fn is_ascii_blank(c: char) -> bool {
    c == ' ' || c == '\t' || c == '\n' || c == '\x0c' || c == '\r'
}

/// The words of `s`: its longest runs without ASCII blanks, in order.
pub open spec fn words(s: Seq<char>) -> Seq<Seq<char>>
    decreases s.len(),
{
    if s.len() == 0 {
        Seq::empty()
    } else if is_ascii_blank(s[0]) {
        words(s.drop_first())
    } else {
        let n = word_len(s);
        if 0 < n <= s.len() {
            seq![s.take(n)] + words(s.skip(n))
        } else {
            Seq::empty()
        }
    }
}

/// Number of characters of `s` in front of its first ASCII blank.
pub open spec fn word_len(s: Seq<char>) -> int
    decreases s.len(),
{
    if s.len() == 0 || is_ascii_blank(s[0]) {
        0
    } else {
        1 + word_len(s.drop_first())
    }
}

proof fn lemma_word_len(s: Seq<char>, n: int)
    requires
        0 <= n <= s.len(),
        forall|j: int| 0 <= j < n ==> !is_ascii_blank(#[trigger] s[j]),
        n < s.len() ==> is_ascii_blank(s[n]),
    ensures
        word_len(s) == n,
    decreases s.len(),
{
    if n > 0 {
        assert(!is_ascii_blank(s[0]));
        assert forall|j: int| 0 <= j < n - 1 implies !is_ascii_blank(
            #[trigger] s.drop_first()[j],
        ) by {
            assert(!is_ascii_blank(s[j + 1]));
        }
        lemma_word_len(s.drop_first(), n - 1);
    }
}

/// The words of `s`.
pub fn split_ascii_whitespace(s: &str) -> (r: Vec<String>)
    ensures
        r.deep_view() == words(s@),
{
    let v: Vec<char> = chars_of(s);
    let mut out: Vec<String> = Vec::new();
    let mut i: usize = 0;
    assert(v@.skip(0) =~= v@);
    assert(out.deep_view() + words(v@) =~= words(v@));
    while i < v.len()
        invariant
            v@ == s@,
            0 <= i <= v@.len(),
            out.deep_view() + words(v@.skip(i as int)) == words(v@),
        decreases v@.len() - i,
    {
        let c: char = v[i];
        let ghost rest = v@.skip(i as int);
        if c == ' ' || c == '\t' || c == '\n' || c == '\x0c' || c == '\r' {
            assert(rest.drop_first() =~= v@.skip(i + 1));
            i += 1;
        } else {
            let start: usize = i;
            while i < v.len() && !(v[i] == ' ' || v[i] == '\t' || v[i] == '\n' || v[i] == '\x0c'
                || v[i] == '\r')
                invariant
                    start <= i <= v@.len(),
                    forall|j: int| start <= j < i ==> !is_ascii_blank(#[trigger] v@[j]),
                decreases v@.len() - i,
            {
                i += 1;
            }
            let word: String = string_of(&v, start, i);
            proof {
                assert(rest.len() == v@.len() - start);
                assert forall|j: int| 0 <= j < i - start implies !is_ascii_blank(
                    #[trigger] rest[j],
                ) by {
                    assert(!is_ascii_blank(v@[start + j]));
                }
                lemma_word_len(rest, i - start);
                assert(!is_ascii_blank(rest[0]));
                assert(i > start) by {
                    if i == start {
                        assert(is_ascii_blank(v@[start as int]));
                    }
                }
                assert(rest.take(i - start) =~= word@);
                assert(rest.skip(i - start) =~= v@.skip(i as int));
                assert(out.deep_view() + (seq![word@] + words(v@.skip(i as int)))
                    =~= out.deep_view().push(word@) + words(v@.skip(i as int)));
            }
            let ghost before = out.deep_view();
            out.push(word);
            assert(out.deep_view() =~= before.push(word@));
        }
    }
    assert(v@.skip(i as int) =~= Seq::<char>::empty());
    assert(out.deep_view() + Seq::<Seq<char>>::empty() =~= out.deep_view());
    out
}

// ── Characters ───────────────────────────────────────────────────────────────

/// Whether a character is one of `0` to `9`.
pub open spec fn is_digit(c: char) -> bool {
    '0' <= c <= '9'
}

/// Whether a character is an ASCII letter.
pub open spec fn is_ascii_letter(c: char) -> bool {
    'a' <= c <= 'z' || 'A' <= c <= 'Z'
}

/// An ASCII capital as its small letter, any other character as it is.
pub open spec fn small(c: char) -> char {
    if 'A' <= c <= 'Z' {
        (c as u32 + 32) as char
    } else {
        c
    }
}

/// `s` with each ASCII capital as its small letter.
pub open spec fn small_letters(s: Seq<char>) -> Seq<char> {
    s.map_values(|c: char| small(c))
}

/// Whether a character is one of `0` to `9`.
pub fn digit(c: char) -> (r: bool)
    ensures
        r == is_digit(c),
{
    '0' <= c && c <= '9'
}

/// Whether a character is an ASCII letter.
pub fn ascii_letter(c: char) -> (r: bool)
    ensures
        r == is_ascii_letter(c),
{
    ('a' <= c && c <= 'z') || ('A' <= c && c <= 'Z')
}

/// Whether every character of `s` is one of `0` to `9`.
pub fn all_digits(s: &str) -> (r: bool)
    ensures
        r == (forall|i: int| 0 <= i < s@.len() ==> is_digit(#[trigger] s@[i])),
{
    let v: Vec<char> = chars_of(s);
    let mut i: usize = 0;
    while i < v.len()
        invariant
            v@ == s@,
            0 <= i <= v@.len(),
            forall|j: int| 0 <= j < i ==> is_digit(#[trigger] s@[j]),
        decreases v@.len() - i,
    {
        if !digit(v[i]) {
            assert(!is_digit(s@[i as int]));
            return false;
        }
        i += 1;
    }
    true
}

/// `s` with each ASCII capital as its small letter.
pub fn to_ascii_lowercase(s: &str) -> (r: String)
    ensures
        r@ == small_letters(s@),
{
    let v: Vec<char> = chars_of(s);
    let mut out: String = String::new();
    let mut i: usize = 0;
    while i < v.len()
        invariant
            v@ == s@,
            0 <= i <= v@.len(),
            out@ == small_letters(s@.take(i as int)),
        decreases v@.len() - i,
    {
        let c: char = v[i];
        if 'A' <= c && c <= 'Z' {
            out.push((c as u8 + 32) as char);
        } else {
            out.push(c);
        }
        i += 1;
        assert(out@ =~= small_letters(s@.take(i as int)));
    }
    assert(s@.take(i as int) =~= s@);
    out
}

/// `s` with each `from` replaced by `to`.
pub open spec fn replaced(s: Seq<char>, from: char, to: char) -> Seq<char> {
    s.map_values(|c: char| if c == from { to } else { c })
}

/// `s` with each `from` replaced by `to`.
pub fn replace(s: &str, from: char, to: char) -> (r: String)
    ensures
        r@ == replaced(s@, from, to),
{
    let v: Vec<char> = chars_of(s);
    let mut out: String = String::new();
    let mut i: usize = 0;
    while i < v.len()
        invariant
            v@ == s@,
            0 <= i <= v@.len(),
            out@ == replaced(s@.take(i as int), from, to),
        decreases v@.len() - i,
    {
        if v[i] == from {
            out.push(to);
        } else {
            out.push(v[i]);
        }
        i += 1;
        assert(out@ =~= replaced(s@.take(i as int), from, to));
    }
    assert(s@.take(i as int) =~= s@);
    out
}

/// `s` without its `c` characters.
pub open spec fn without_char(s: Seq<char>, c: char) -> Seq<char>
    decreases s.len(),
{
    if s.len() == 0 {
        Seq::empty()
    } else if s.last() == c {
        without_char(s.drop_last(), c)
    } else {
        without_char(s.drop_last(), c).push(s.last())
    }
}

/// `s` without its `c` characters.
pub fn remove_char(s: &str, c: char) -> (r: String)
    ensures
        r@ == without_char(s@, c),
{
    let v: Vec<char> = chars_of(s);
    let mut out: String = String::new();
    let mut i: usize = 0;
    while i < v.len()
        invariant
            v@ == s@,
            0 <= i <= v@.len(),
            out@ == without_char(s@.take(i as int), c),
        decreases v@.len() - i,
    {
        if v[i] != c {
            out.push(v[i]);
        }
        i += 1;
        assert(s@.take(i as int).drop_last() =~= s@.take(i - 1));
    }
    assert(s@.take(i as int) =~= s@);
    out
}

// ── Numbers ──────────────────────────────────────────────────────────────────

/// The character for a digit value.
pub open spec fn digit_char(n: nat) -> char {
    ('0' as u32 + n) as char
}

/// The value of a digit character.
pub open spec fn digit_value(c: char) -> int {
    c as u32 - '0' as u32
}

/// The decimal notation of a number, without leading zeros.
pub open spec fn decimal(n: nat) -> Seq<char>
    decreases n,
{
    if n < 10 {
        seq![digit_char(n)]
    } else {
        decimal(n / 10).push(digit_char(n % 10))
    }
}

/// The decimal notation of an integer.
pub open spec fn signed_decimal(n: int) -> Seq<char> {
    if n < 0 {
        seq!['-'] + decimal((-n) as nat)
    } else {
        decimal(n as nat)
    }
}

/// The decimal notation of a number, with a zero in front of a single digit.
pub open spec fn two_digits(n: nat) -> Seq<char> {
    if n < 10 {
        seq!['0'] + decimal(n)
    } else {
        decimal(n)
    }
}

/// The decimal notation of a number.
pub fn number(n: u64) -> (r: String)
    ensures
        r@ == decimal(n as nat),
    decreases n,
{
    let last: u64 = n % 10;
    let c: char = (48u8 + last as u8) as char;
    assert(c == digit_char((n % 10) as nat));
    if n < 10 {
        let mut s: String = String::new();
        s.push(c);
        assert(s@ =~= seq![digit_char(n as nat)]);
        s
    } else {
        let mut s: String = number(n / 10);
        s.push(c);
        s
    }
}

/// The decimal notation of an integer.
pub fn signed_number(n: i32) -> (r: String)
    ensures
        r@ == signed_decimal(n as int),
{
    if n < 0 {
        let m: u64 = (-(n as i64)) as u64;
        let mut s: String = String::new();
        s.push('-');
        let digits: String = number(m);
        s.append(digits.as_str());
        assert(s@ =~= seq!['-'] + decimal((-n) as nat));
        s
    } else {
        number(n as u64)
    }
}

/// The decimal notation of a number, with a zero in front of a single digit.
pub fn two_digit_number(n: u64) -> (r: String)
    ensures
        r@ == two_digits(n as nat),
{
    if n < 10 {
        let mut s: String = String::new();
        s.push('0');
        let digits: String = number(n);
        s.append(digits.as_str());
        assert(s@ =~= seq!['0'] + decimal(n as nat));
        s
    } else {
        number(n)
    }
}

/// The number that a row of digits stands for.
pub open spec fn digits_value(s: Seq<char>) -> int
    decreases s.len(),
{
    if s.len() == 0 {
        0
    } else {
        digits_value(s.drop_last()) * 10 + digit_value(s.last())
    }
}

/// Whether `s` is a row of at least one digit.
pub open spec fn is_number(s: Seq<char>) -> bool {
    s.len() > 0 && forall|i: int| 0 <= i < s.len() ==> is_digit(#[trigger] s[i])
}

/// The number that `s` stands for: digits, with an optional `+`, up to `max`.
pub open spec fn unsigned_value(s: Seq<char>, max: int) -> Option<int> {
    let body = if s.len() > 0 && s[0] == '+' {
        s.drop_first()
    } else {
        s
    };
    if is_number(body) && digits_value(body) <= max {
        Some(digits_value(body))
    } else {
        None
    }
}

/// The integer that `s` stands for: digits, with an optional sign, in the range
/// of `i32`.
pub open spec fn i32_value(s: Seq<char>) -> Option<int> {
    if s.len() > 0 && s[0] == '-' {
        let body = s.drop_first();
        if is_number(body) && -digits_value(body) >= i32::MIN {
            Some(-digits_value(body))
        } else {
            None
        }
    } else {
        unsigned_value(s, i32::MAX as int)
    }
}

proof fn lemma_digits_value_nonnegative(s: Seq<char>)
    requires
        forall|i: int| 0 <= i < s.len() ==> is_digit(#[trigger] s[i]),
    ensures
        0 <= digits_value(s),
    decreases s.len(),
{
    if s.len() > 0 {
        assert(is_digit(s[s.len() - 1]));
        assert forall|i: int| 0 <= i < s.drop_last().len() implies is_digit(
            #[trigger] s.drop_last()[i],
        ) by {
            assert(is_digit(s[i]));
        }
        lemma_digits_value_nonnegative(s.drop_last());
    }
}

/// Decimal notation is a row of digits with the value that it stands for.
pub proof fn lemma_decimal(n: nat)
    ensures
        is_number(decimal(n)),
        digits_value(decimal(n)) == n,
    decreases n,
{
    let d = decimal(n);
    if n < 10 {
        assert(d.drop_last() =~= Seq::<char>::empty());
        assert(digits_value(d.drop_last()) == 0);
        assert(is_digit(d[0]));
    } else {
        lemma_decimal(n / 10);
        assert(d.drop_last() =~= decimal(n / 10));
        assert forall|i: int| 0 <= i < d.len() implies is_digit(#[trigger] d[i]) by {
            if i < d.len() - 1 {
                assert(d[i] == decimal(n / 10)[i]);
            }
        }
    }
}

/// An integer is read back from its decimal notation, which holds digits and a
/// sign alone.
pub proof fn law_decimals_are_read_back(n: int)
    requires
        i32::MIN <= n <= i32::MAX,
    ensures
        i32_value(signed_decimal(n)) == Some(n),
        forall|i: int|
            0 <= i < signed_decimal(n).len() ==> is_digit(#[trigger] signed_decimal(n)[i])
                || signed_decimal(n)[i] == '-',
{
    if n < 0 {
        lemma_decimal((-n) as nat);
        assert(signed_decimal(n).drop_first() =~= decimal((-n) as nat));
    } else {
        lemma_decimal(n as nat);
        assert(is_digit(decimal(n as nat)[0]));
    }
}

/// A number that a text stands for is in range.
pub proof fn lemma_unsigned_value(s: Seq<char>, max: int)
    ensures
        unsigned_value(s, max) matches Some(n) ==> 0 <= n <= max,
{
    let body = if s.len() > 0 && s[0] == '+' {
        s.drop_first()
    } else {
        s
    };
    if is_number(body) {
        lemma_digits_value_nonnegative(body);
    }
}

/// The number that the characters `from..` of `v` stand for, if they are a row
/// of digits whose value is at most `max`.
fn parse_digits(v: &Vec<char>, from: usize, max: u64) -> (r: Option<u64>)
    requires
        from <= v@.len(),
        max <= 0x1_0000_0000,
    ensures
        ({
            let s = v@.skip(from as int);
            if is_number(s) && digits_value(s) <= max {
                r == Some(digits_value(s) as u64)
            } else {
                r is None
            }
        }),
{
    let ghost s = v@.skip(from as int);
    if from == v.len() {
        return None;
    }
    let mut i: usize = from;
    let mut value: u64 = 0;
    let mut over: bool = false;
    assert(s.take(0) =~= Seq::<char>::empty());
    while i < v.len()
        invariant
            from <= i <= v@.len(),
            s == v@.skip(from as int),
            max <= 0x1_0000_0000,
            forall|j: int| 0 <= j < i - from ==> is_digit(#[trigger] s[j]),
            over <==> digits_value(s.take(i - from)) > max,
            !over ==> value == digits_value(s.take(i - from)),
            digits_value(s.take(i - from)) >= 0,
        decreases v@.len() - i,
    {
        let c: char = v[i];
        assert(s[i - from] == c);
        if !digit(c) {
            assert(!is_digit(s[i - from]));
            return None;
        }
        let d: u64 = (c as u32 - 48) as u64;
        assert(s.take(i + 1 - from).drop_last() =~= s.take(i - from));
        if !over {
            value = value * 10 + d;
            if value > max {
                over = true;
            }
        }
        i += 1;
    }
    assert(s.take(i - from) =~= s);
    if over {
        None
    } else {
        Some(value)
    }
}

/// The `u32` that `s` stands for.
pub fn parse_u32(s: &str) -> (r: Option<u32>)
    ensures
        match unsigned_value(s@, u32::MAX as int) {
            Some(n) => r == Some(n as u32) && 0 <= n <= u32::MAX,
            None => r is None,
        },
{
    let v: Vec<char> = chars_of(s);
    let from: usize = if v.len() > 0 && v[0] == '+' {
        1
    } else {
        0
    };
    proof {
        assert(v@.skip(0) =~= v@);
        if v@.len() > 0 {
            assert(v@.skip(1) =~= v@.drop_first());
        }
        let body = v@.skip(from as int);
        if is_number(body) {
            lemma_digits_value_nonnegative(body);
        }
    }
    match parse_digits(&v, from, u32::MAX as u64) {
        Some(n) => Some(n as u32),
        None => None,
    }
}

/// The `i32` that `s` stands for.
pub fn parse_i32(s: &str) -> (r: Option<i32>)
    ensures
        match i32_value(s@) {
            Some(n) => r == Some(n as i32) && i32::MIN <= n <= i32::MAX,
            None => r is None,
        },
{
    let v: Vec<char> = chars_of(s);
    let minus: bool = v.len() > 0 && v[0] == '-';
    let from: usize = if minus || (v.len() > 0 && v[0] == '+') {
        1
    } else {
        0
    };
    let max: u64 = if minus {
        2147483648
    } else {
        2147483647
    };
    proof {
        assert(v@.skip(0) =~= v@);
        if v@.len() > 0 {
            assert(v@.skip(1) =~= v@.drop_first());
        }
        let body = v@.skip(from as int);
        if is_number(body) {
            lemma_digits_value_nonnegative(body);
        }
    }
    match parse_digits(&v, from, max) {
        Some(n) => {
            if minus {
                Some((-(n as i64)) as i32)
            } else {
                Some(n as i32)
            }
        },
        None => None,
    }
}

// ── Order ────────────────────────────────────────────────────────────────────

/// Whether `a` comes before `b`: character by character, a prefix first.
pub open spec fn before(a: Seq<char>, b: Seq<char>) -> bool
    decreases a.len(),
{
    if b.len() == 0 {
        false
    } else if a.len() == 0 {
        true
    } else if a[0] != b[0] {
        a[0] < b[0]
    } else {
        before(a.drop_first(), b.drop_first())
    }
}

/// Nothing comes before itself.
pub proof fn lemma_before_irreflexive(a: Seq<char>)
    ensures
        !before(a, a),
    decreases a.len(),
{
    if a.len() > 0 {
        lemma_before_irreflexive(a.drop_first());
    }
}

/// Of two different texts one comes before the other.
pub proof fn lemma_before_total(a: Seq<char>, b: Seq<char>)
    ensures
        before(a, b) || before(b, a) || a == b,
        !(before(a, b) && before(b, a)),
    decreases a.len(),
{
    if a.len() > 0 && b.len() > 0 && a[0] == b[0] {
        lemma_before_total(a.drop_first(), b.drop_first());
        if a.drop_first() == b.drop_first() {
            assert(a =~= seq![a[0]] + a.drop_first());
            assert(b =~= seq![b[0]] + b.drop_first());
        }
    } else if a.len() == 0 && b.len() == 0 {
        assert(a =~= b);
    }
}

/// The order is transitive.
pub proof fn lemma_before_transitive(a: Seq<char>, b: Seq<char>, c: Seq<char>)
    requires
        before(a, b),
        before(b, c),
    ensures
        before(a, c),
    decreases a.len(),
{
    if a.len() > 0 && a[0] == b[0] && b[0] == c[0] {
        lemma_before_transitive(a.drop_first(), b.drop_first(), c.drop_first());
    }
}

/// Whether `a` comes before `b`.
pub fn comes_before(a: &str, b: &str) -> (r: bool)
    ensures
        r == before(a@, b@),
{
    let x: Vec<char> = chars_of(a);
    let y: Vec<char> = chars_of(b);
    let mut i: usize = 0;
    assert(x@.skip(0) =~= x@);
    assert(y@.skip(0) =~= y@);
    while i < x.len() && i < y.len()
        invariant
            x@ == a@,
            y@ == b@,
            0 <= i <= x@.len(),
            i <= y@.len(),
            before(x@, y@) == before(x@.skip(i as int), y@.skip(i as int)),
        decreases x@.len() - i,
    {
        let ghost p = x@.skip(i as int);
        let ghost q = y@.skip(i as int);
        if x[i] != y[i] {
            assert(p[0] != q[0]);
            return x[i] < y[i];
        }
        assert(p[0] == q[0]);
        assert(p.drop_first() =~= x@.skip(i + 1));
        assert(q.drop_first() =~= y@.skip(i + 1));
        i += 1;
    }
    i < y.len()
}

// ── Laws of text ─────────────────────────────────────────────────────────────

proof fn lemma_joined_front(first: Seq<char>, rest: Seq<Seq<char>>, sep: Seq<char>)
    requires
        rest.len() > 0,
    ensures
        joined(seq![first] + rest, sep) == first + sep + joined(rest, sep),
    decreases rest.len(),
{
    let all = seq![first] + rest;
    if rest.len() == 1 {
        assert(all.drop_last() =~= seq![first]);
        assert(joined(seq![first], sep) == first);
    } else {
        let front = rest.drop_last();
        lemma_joined_front(first, front, sep);
        assert(all.drop_last() =~= seq![first] + front);
        assert(first + sep + joined(front, sep) + sep + rest.last() =~= first + sep + (joined(
            front,
            sep,
        ) + sep + rest.last()));
    }
}

/// The pieces of a text hold no separator, and joined by it they are the text again.
pub proof fn law_pieces_join_again(s: Seq<char>, sep: char)
    ensures
        joined(pieces(s, sep), seq![sep]) == s,
        forall|i: int|
            0 <= i < pieces(s, sep).len() ==> !(#[trigger] pieces(s, sep)[i]).contains(sep),
        pieces(s, sep).len() > 0,
    decreases s.len(),
{
    let i = index_of(s, sep);
    lemma_index_of_bounds(s, sep);
    if i < s.len() {
        let head = s.take(i);
        let tail = s.skip(i + 1);
        law_pieces_join_again(tail, sep);
        lemma_joined_front(head, pieces(tail, sep), seq![sep]);
        assert(head + seq![sep] + tail =~= s);
        assert forall|k: int| 0 <= k < head.len() implies head[k] != sep by {
            assert(head[k] == s[k]);
        }
        assert forall|k: int| 0 <= k < pieces(s, sep).len() implies !(
        #[trigger] pieces(s, sep)[k]).contains(sep) by {
            if k > 0 {
                assert(pieces(s, sep)[k] == pieces(tail, sep)[k - 1]);
            }
        }
    }
}

/// A line ends at its line feed, which does not belong to it, and neither does a carriage
/// return in front of it; the lines behind it are those of the rest. A text without a line
/// feed is one line, and an empty text none.
pub proof fn law_lines_end_at_line_feeds(line: Seq<char>, rest: Seq<char>)
    requires
        !line.contains('\n'),
    ensures
        lines_of(line.push('\n') + rest) == seq![
            if line.len() > 0 && line.last() == '\r' {
                line.drop_last()
            } else {
                line
            },
        ] + lines_of(rest),
        line.len() > 0 ==> lines_of(line) == seq![line],
        lines_of(Seq::empty()).len() == 0,
{
    let all = line.push('\n') + rest;
    assert forall|j: int| 0 <= j < line.len() implies all[j] != '\n' by {
        assert(all[j] == line[j]);
        assert(line.contains(line[j]));
    }
    lemma_index_of(all, '\n', line.len() as int);
    assert(all.take(line.len() as int) =~= line);
    assert(all.skip(line.len() as int + 1) =~= rest);
    lemma_index_of_bounds(line, '\n');
}

/// Trimming takes away the blanks at both ends, and nothing else.
pub proof fn law_trimming_takes_blanks_away(front: Seq<char>, core: Seq<char>, back: Seq<char>)
    requires
        forall|i: int| 0 <= i < front.len() ==> is_blank(#[trigger] front[i]),
        forall|i: int| 0 <= i < back.len() ==> is_blank(#[trigger] back[i]),
        core.len() > 0,
        !is_blank(core[0]),
        !is_blank(core.last()),
    ensures
        trimmed(front + core + back) == core,
        trimmed(front).len() == 0,
{
    let drop = |c: char| is_blank(c);
    let all = front + core + back;
    assert forall|j: int| 0 <= j < front.len() implies drop(#[trigger] all[j]) by {
        assert(all[j] == front[j]);
    }
    assert(all[front.len() as int] == core[0]);
    lemma_trim_front(all, drop, front.len() as int);
    let rest = all.skip(front.len() as int);
    assert(rest =~= core + back);
    assert forall|j: int| core.len() <= j < rest.len() implies drop(#[trigger] rest[j]) by {
        assert(rest[j] == back[j - core.len()]);
    }
    assert(rest[core.len() - 1] == core.last());
    lemma_trim_back(rest, drop, core.len() as int);
    assert(rest.take(core.len() as int) =~= core);
    assert forall|j: int| 0 <= j < front.len() implies drop(#[trigger] front[j]) by {}
    lemma_trim_front(front, drop, front.len() as int);
    assert(front.skip(front.len() as int) =~= Seq::<char>::empty());
}

/// Small letters differ from a text in its large ASCII letters alone, and a replacement in
/// the characters that are replaced; both keep every other character where it is.
pub proof fn law_other_characters_stay(s: Seq<char>, from: char, to: char, i: int)
    requires
        0 <= i < s.len(),
    ensures
        small_letters(s).len() == s.len(),
        !('A' <= s[i] <= 'Z') ==> small_letters(s)[i] == s[i],
        'A' <= s[i] <= 'Z' ==> small_letters(s)[i] as u32 == s[i] as u32 + 32,
        replaced(s, from, to).len() == s.len(),
        s[i] == from ==> replaced(s, from, to)[i] == to,
        s[i] != from ==> replaced(s, from, to)[i] == s[i],
{
}

/// A word ends at a blank, which belongs to no word; blanks in front of a word do not count.
pub proof fn law_words_end_at_blanks(word: Seq<char>, blank: char, rest: Seq<char>)
    requires
        word.len() > 0,
        forall|j: int| 0 <= j < word.len() ==> !is_ascii_blank(#[trigger] word[j]),
        is_ascii_blank(blank),
    ensures
        words(word) == seq![word],
        words(word.push(blank) + rest) == seq![word] + words(rest),
        words(seq![blank] + rest) == words(rest),
        is_ascii_blank(' ') && is_ascii_blank('\t') && is_ascii_blank('\n'),
{
    let n = word.len() as int;
    lemma_word_len(word, n);
    assert(word.take(n) =~= word);
    assert(word.skip(n) =~= Seq::<char>::empty());
    assert(words(word.skip(n)) =~= Seq::<Seq<char>>::empty());
    assert(!is_ascii_blank(word[0]));
    assert(words(word) =~= seq![word]);
    let all = word.push(blank) + rest;
    assert forall|j: int| 0 <= j < n implies !is_ascii_blank(#[trigger] all[j]) by {
        assert(all[j] == word[j]);
    }
    assert(all[0] == word[0]);
    lemma_word_len(all, n);
    assert(all.take(n) =~= word);
    let tail = seq![blank] + rest;
    assert(all.skip(n) =~= tail);
    assert(tail.drop_first() =~= rest);
    assert(words(tail) == words(rest));
}

} // verus!
