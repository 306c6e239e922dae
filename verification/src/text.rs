use vstd::prelude::*;
use vstd::utf8::*;

verus! {

broadcast use vstd::string::group_string_axioms;

/// Number of bytes in the UTF-8 encoding of a character sequence.
pub open spec fn byte_len(s: Seq<char>) -> nat {
    encode_utf8(s).len()
}

/// Number of bytes in the UTF-8 encoding of one character.
pub open spec fn char_width(c: char) -> nat {
    encode_scalar(c as u32).len()
}

pub proof fn lemma_encode_concat(a: Seq<char>, b: Seq<char>)
    ensures
        encode_utf8(a + b) == encode_utf8(a) + encode_utf8(b),
    decreases a.len(),
{
    if a.len() == 0 {
        assert(a + b =~= b);
        assert(encode_utf8(a) + encode_utf8(b) =~= encode_utf8(b));
    } else {
        lemma_encode_concat(a.drop_first(), b);
        assert((a + b).drop_first() =~= a.drop_first() + b);
        assert((a + b)[0] == a[0]);
        assert(encode_utf8(a + b) =~= encode_utf8(a) + encode_utf8(b));
    }
}

pub proof fn lemma_byte_len_push(s: Seq<char>, c: char)
    ensures
        byte_len(s.push(c)) == byte_len(s) + char_width(c),
{
    lemma_encode_concat(s, seq![c]);
    assert(s.push(c) =~= s + seq![c]);
    assert(seq![c].drop_first() =~= Seq::<char>::empty());
    assert(encode_utf8(Seq::<char>::empty()) =~= Seq::<u8>::empty());
    assert(encode_utf8(seq![c]) =~= encode_scalar(c as u32) + encode_utf8(seq![c].drop_first()));
}

/// Copies the characters of a string into a vector.
pub fn chars_of(s: &str) -> (v: Vec<char>)
    ensures
        v@ == s@,
{
    let mut v: Vec<char> = Vec::new();
    for c in it: s.chars()
        invariant
            v@ == it.seq().take(it.index() as int),
    {
        v.push(c);
    }
    v
}

} // verus!

verus! {

/// `char::is_whitespace`: the Unicode `White_Space` property.
pub open spec fn is_whitespace(c: char) -> bool {
    let v = c as u32;
    ||| 0x09 <= v <= 0x0D
    ||| v == 0x20
    ||| v == 0x85
    ||| v == 0xA0
    ||| v == 0x1680
    ||| 0x2000 <= v <= 0x200A
    ||| v == 0x2028
    ||| v == 0x2029
    ||| v == 0x202F
    ||| v == 0x205F
    ||| v == 0x3000
}

/// The characters of `s` without its leading whitespace.
pub open spec fn trim_start(s: Seq<char>) -> Seq<char>
    decreases s.len(),
{
    if s.len() > 0 && is_whitespace(s[0]) {
        trim_start(s.drop_first())
    } else {
        s
    }
}

/// The characters of `s` without its trailing whitespace.
pub open spec fn trim_end(s: Seq<char>) -> Seq<char>
    decreases s.len(),
{
    if s.len() > 0 && is_whitespace(s.last()) {
        trim_end(s.drop_last())
    } else {
        s
    }
}

/// `str::trim`: the characters of `s` without leading and trailing whitespace.
pub open spec fn trim(s: Seq<char>) -> Seq<char> {
    trim_end(trim_start(s))
}

/// `char::to_ascii_lowercase`.
pub open spec fn ascii_lower(c: char) -> char {
    if 'A' <= c <= 'Z' {
        ((c as u32) + 32) as char
    } else {
        c
    }
}

/// `str::to_ascii_lowercase`.
pub open spec fn ascii_lowercase(s: Seq<char>) -> Seq<char> {
    s.map_values(|c: char| ascii_lower(c))
}

/// `char::is_ascii_alphanumeric`.
pub open spec fn is_ascii_alphanumeric(c: char) -> bool {
    ||| '0' <= c <= '9'
    ||| 'a' <= c <= 'z'
    ||| 'A' <= c <= 'Z'
}

/// `s` begins with `prefix`.
pub open spec fn has_prefix(s: Seq<char>, prefix: Seq<char>) -> bool {
    prefix.len() <= s.len() && s.subrange(0, prefix.len() as int) == prefix
}

/// `s` ends with `suffix`.
pub open spec fn has_suffix(s: Seq<char>, suffix: Seq<char>) -> bool {
    suffix.len() <= s.len() && s.subrange(s.len() - suffix.len(), s.len() as int) == suffix
}

/// `needle` occurs in `s` starting at position `i`.
pub open spec fn occurs_at(s: Seq<char>, needle: Seq<char>, i: int) -> bool {
    0 <= i && i + needle.len() <= s.len() && s.subrange(i, i + needle.len()) == needle
}

/// `needle` occurs somewhere in `s`.
pub open spec fn contains_seq(s: Seq<char>, needle: Seq<char>) -> bool {
    exists|i: int| #[trigger] occurs_at(s, needle, i)
}

/// The decimal digit for `d < 10`.
pub open spec fn digit(d: nat) -> char {
    seq!['0', '1', '2', '3', '4', '5', '6', '7', '8', '9'][d as int]
}

/// Decimal representation of a natural number, as `u64::to_string` writes it.
pub open spec fn decimal(n: nat) -> Seq<char>
    decreases n,
{
    if n < 10 {
        seq![digit(n)]
    } else {
        decimal(n / 10).push(digit(n % 10))
    }
}

/// `String::push`: appends one character.
#[verifier::external_body]
pub(crate) fn push_char(s: &mut String, c: char)
    ensures
        final(s)@ == old(s)@.push(c),
{
    s.push(c);
}

/// Number of bytes in the UTF-8 encoding of `c`.
pub fn char_width_exec(c: char) -> (w: usize)
    ensures
        w == char_width(c),
        1 <= w <= 4,
{
    let v = c as u32;
    proof {
        char_is_scalar(c);
    }
    if v < 0x80 {
        1
    } else if v < 0x800 {
        2
    } else if v < 0x10000 {
        3
    } else {
        4
    }
}

/// Builds a string from `v[lo..hi]`.
pub fn string_from_range(v: &Vec<char>, lo: usize, hi: usize) -> (s: String)
    requires
        lo <= hi <= v.len(),
    ensures
        s@ == v@.subrange(lo as int, hi as int),
{
    let mut s = String::new();
    let mut i = lo;
    while i < hi
        invariant
            lo <= i <= hi <= v.len(),
            s@ == v@.subrange(lo as int, i as int),
        decreases hi - i,
    {
        push_char(&mut s, v[i]);
        assert(v@.subrange(lo as int, i + 1) =~= v@.subrange(lo as int, i as int).push(v@[i as int]));
        i += 1;
    }
    s
}

/// Builds a string from a character vector.
pub fn string_from_chars(v: &Vec<char>) -> (s: String)
    ensures
        s@ == v@,
{
    let s = string_from_range(v, 0, v.len());
    assert(v@.subrange(0, v.len() as int) =~= v@);
    s
}

/// Appends `v` to `s`.
pub fn push_chars(s: &mut String, v: &Vec<char>)
    ensures
        final(s)@ == old(s)@ + v@,
{
    let mut i: usize = 0;
    while i < v.len()
        invariant
            i <= v.len(),
            s@ == old(s)@ + v@.subrange(0, i as int),
        decreases v.len() - i,
    {
        push_char(s, v[i]);
        assert(v@.subrange(0, i + 1) =~= v@.subrange(0, i as int).push(v@[i as int]));
        i += 1;
    }
    assert(v@.subrange(0, v.len() as int) =~= v@);
}

/// Concatenation of two strings.
pub fn concat(a: &str, b: &str) -> (s: String)
    ensures
        s@ == a@ + b@,
{
    let mut s = String::new();
    let av = chars_of(a);
    let bv = chars_of(b);
    push_chars(&mut s, &av);
    push_chars(&mut s, &bv);
    assert(Seq::<char>::empty() + a@ =~= a@);
    s
}

/// `char::is_whitespace`.
pub fn is_whitespace_exec(c: char) -> (b: bool)
    ensures
        b == is_whitespace(c),
{
    let v = c as u32;
    (0x09 <= v && v <= 0x0D) || v == 0x20 || v == 0x85 || v == 0xA0 || v == 0x1680 || (0x2000
        <= v && v <= 0x200A) || v == 0x2028 || v == 0x2029 || v == 0x202F || v == 0x205F || v
        == 0x3000
}

proof fn lemma_trim_start_skip(s: Seq<char>, i: int)
    requires
        0 <= i <= s.len(),
        forall|k: int| 0 <= k < i ==> is_whitespace(#[trigger] s[k]),
    ensures
        trim_start(s) == trim_start(s.subrange(i, s.len() as int)),
    decreases i,
{
    if i > 0 {
        assert(is_whitespace(s[0]));
        let t = s.drop_first();
        assert forall|k: int| 0 <= k < i - 1 implies is_whitespace(#[trigger] t[k]) by {
            assert(t[k] == s[k + 1]);
        }
        lemma_trim_start_skip(t, i - 1);
        assert(t.subrange(i - 1, t.len() as int) =~= s.subrange(i, s.len() as int));
    } else {
        assert(s.subrange(0, s.len() as int) =~= s);
    }
}

proof fn lemma_trim_end_cut(s: Seq<char>, j: int)
    requires
        0 <= j <= s.len(),
        forall|k: int| j <= k < s.len() ==> is_whitespace(#[trigger] s[k]),
    ensures
        trim_end(s) == trim_end(s.subrange(0, j)),
    decreases s.len() - j,
{
    if j < s.len() {
        assert(is_whitespace(s.last()));
        let t = s.drop_last();
        assert forall|k: int| j <= k < t.len() implies is_whitespace(#[trigger] t[k]) by {
            assert(t[k] == s[k]);
        }
        lemma_trim_end_cut(t, j);
        assert(t.subrange(0, j) =~= s.subrange(0, j));
    } else {
        assert(s.subrange(0, j) =~= s);
    }
}

/// Bounds `(lo, hi)` such that `v[lo..hi]` is `v` trimmed.
pub fn trim_bounds(v: &Vec<char>) -> (r: (usize, usize))
    ensures
        r.0 <= r.1 <= v.len(),
        v@.subrange(r.0 as int, r.1 as int) == trim(v@),
{
    let mut lo: usize = 0;
    while lo < v.len() && is_whitespace_exec(v[lo])
        invariant
            lo <= v.len(),
            forall|k: int| 0 <= k < lo ==> is_whitespace(#[trigger] v@[k]),
        decreases v.len() - lo,
    {
        lo += 1;
    }
    proof {
        lemma_trim_start_skip(v@, lo as int);
        let t = v@.subrange(lo as int, v.len() as int);
        if t.len() > 0 {
            assert(t[0] == v@[lo as int]);
        }
        assert(trim_start(t) == t);
    }
    let mut hi: usize = v.len();
    while hi > lo && is_whitespace_exec(v[hi - 1])
        invariant
            lo <= hi <= v.len(),
            forall|k: int| hi <= k < v.len() ==> is_whitespace(#[trigger] v@[k]),
        decreases hi,
    {
        hi -= 1;
    }
    proof {
        let t = v@.subrange(lo as int, v.len() as int);
        let j = hi - lo;
        assert forall|k: int| j <= k < t.len() implies is_whitespace(#[trigger] t[k]) by {
            assert(t[k] == v@[k + lo]);
        }
        lemma_trim_end_cut(t, j);
        let u = t.subrange(0, j);
        assert(u =~= v@.subrange(lo as int, hi as int));
        if u.len() > 0 {
            assert(u.last() == v@[hi - 1]);
        }
        assert(trim_end(u) == u);
    }
    (lo, hi)
}

/// `str::trim`, as an owned string.
pub fn trim_str(s: &str) -> (r: String)
    ensures
        r@ == trim(s@),
{
    let v = chars_of(s);
    let (lo, hi) = trim_bounds(&v);
    string_from_range(&v, lo, hi)
}

/// `str::to_ascii_lowercase`.
pub fn ascii_lowercase_str(s: &str) -> (r: String)
    ensures
        r@ == ascii_lowercase(s@),
{
    let v = chars_of(s);
    let mut r = String::new();
    let mut i: usize = 0;
    while i < v.len()
        invariant
            i <= v.len(),
            v@ == s@,
            r@ == ascii_lowercase(s@).subrange(0, i as int),
        decreases v.len() - i,
    {
        let c = v[i];
        let l = if 'A' <= c && c <= 'Z' {
            ((c as u32) + 32) as u8 as char
        } else {
            c
        };
        assert(l == ascii_lower(c)) by {
            if 'A' <= c <= 'Z' {
                assert((((c as u32) + 32) as u8 as char) == (((c as u32) + 32) as char));
            }
        };
        push_char(&mut r, l);
        assert(ascii_lowercase(s@).subrange(0, i + 1) =~= ascii_lowercase(s@).subrange(
            0,
            i as int,
        ).push(l));
        i += 1;
    }
    assert(ascii_lowercase(s@).subrange(0, v.len() as int) =~= ascii_lowercase(s@));
    r
}

/// Whether `v[i..]` starts with `needle`.
pub fn occurs_at_exec(v: &Vec<char>, needle: &Vec<char>, i: usize) -> (b: bool)
    requires
        i <= v.len(),
    ensures
        b == occurs_at(v@, needle@, i as int),
{
    if needle.len() > v.len() - i {
        return false;
    }
    let mut k: usize = 0;
    while k < needle.len()
        invariant
            k <= needle.len(),
            i + needle.len() <= v.len(),
            forall|m: int| 0 <= m < k ==> v@[i + m] == needle@[m],
        decreases needle.len() - k,
    {
        if v[i + k] != needle[k] {
            assert(v@.subrange(i as int, i + needle.len())[k as int] != needle@[k as int]);
            return false;
        }
        k += 1;
    }
    assert(v@.subrange(i as int, i + needle.len()) =~= needle@);
    true
}

/// Whether `needle` occurs in `v`.
pub fn contains_exec(v: &Vec<char>, needle: &Vec<char>) -> (b: bool)
    ensures
        b == contains_seq(v@, needle@),
{
    let mut i: usize = 0;
    while i < v.len()
        invariant
            i <= v.len(),
            forall|m: int| 0 <= m < i ==> !occurs_at(v@, needle@, m),
        decreases v.len() - i,
    {
        if occurs_at_exec(v, needle, i) {
            return true;
        }
        i += 1;
    }
    if occurs_at_exec(v, needle, i) {
        return true;
    }
    assert forall|m: int| !(#[trigger] occurs_at(v@, needle@, m)) by {
        if 0 <= m <= i {
        }
    }
    false
}

/// Whether `s` begins with `prefix`.
pub fn starts_with_exec(s: &Vec<char>, prefix: &Vec<char>) -> (b: bool)
    ensures
        b == has_prefix(s@, prefix@),
{
    occurs_at_exec(s, prefix, 0)
}

/// Whether `s` ends with `suffix`.
pub fn ends_with_exec(s: &Vec<char>, suffix: &Vec<char>) -> (b: bool)
    ensures
        b == has_suffix(s@, suffix@),
{
    if suffix.len() > s.len() {
        return false;
    }
    occurs_at_exec(s, suffix, s.len() - suffix.len())
}

proof fn lemma_decimal_nonempty(n: nat)
    ensures
        decimal(n).len() >= 1,
    decreases n,
{
    if n >= 10 {
        lemma_decimal_nonempty(n / 10);
    }
}

const DIGITS: [char; 10] = ['0', '1', '2', '3', '4', '5', '6', '7', '8', '9'];

/// Decimal representation of `n`, as `u64::to_string` writes it.
pub fn decimal_string(n: u128) -> (s: String)
    ensures
        s@ == decimal(n as nat),
{
    let mut digits: Vec<char> = Vec::new();
    let mut cur = n;
    while cur >= 10
        invariant
            decimal(n as nat) == decimal(cur as nat) + digits@,
        decreases cur,
    {
        let d = (cur % 10) as usize;
        let c = DIGITS[d];
        assert(c == digit((cur % 10) as nat));
        let ghost old_digits = digits@;
        digits.insert(0, c);
        assert(decimal(cur as nat) == decimal((cur / 10) as nat).push(c));
        assert(decimal((cur / 10) as nat).push(c) + old_digits =~= decimal((cur / 10) as nat)
            + digits@);
        cur = cur / 10;
    }
    let c = DIGITS[cur as usize];
    assert(c == digit(cur as nat));
    digits.insert(0, c);
    assert(decimal(cur as nat) =~= seq![c]);
    string_from_chars(&digits)
}

} // verus!

verus! {

/// Number of leading characters of `s` whose encoding fits in `max` bytes:
/// the longest prefix of `s` that ends on a character boundary at or before byte `max`.
pub open spec fn byte_cut(s: Seq<char>, max: nat) -> nat
    decreases s.len(),
{
    if s.len() == 0 || byte_len(s) <= max {
        s.len()
    } else {
        byte_cut(s.drop_last(), max)
    }
}

/// Number of leading characters to drop from `s` so that the rest fits in `max` bytes:
/// the start of the longest suffix of `s` that begins on a character boundary.
pub open spec fn suffix_cut(s: Seq<char>, max: nat) -> nat
    decreases s.len(),
{
    if s.len() == 0 || byte_len(s) <= max {
        0
    } else {
        1 + suffix_cut(s.drop_first(), max)
    }
}

pub proof fn lemma_byte_len_split(s: Seq<char>, k: int)
    requires
        0 <= k <= s.len(),
    ensures
        byte_len(s) == byte_len(s.take(k)) + byte_len(s.skip(k)),
{
    lemma_encode_concat(s.take(k), s.skip(k));
    assert(s.take(k) + s.skip(k) =~= s);
}

pub proof fn lemma_byte_len_take_step(s: Seq<char>, k: int)
    requires
        0 <= k < s.len(),
    ensures
        byte_len(s.take(k + 1)) == byte_len(s.take(k)) + char_width(s[k]),
        char_width(s[k]) >= 1,
{
    lemma_byte_len_push(s.take(k), s[k]);
    assert(s.take(k + 1) =~= s.take(k).push(s[k]));
    lemma_char_width_pos(s[k]);
}

pub proof fn lemma_char_width_pos(c: char)
    ensures
        1 <= char_width(c) <= 4,
{
    char_is_scalar(c);
}

pub proof fn lemma_byte_len_take_mono(s: Seq<char>, i: int, j: int)
    requires
        0 <= i <= j <= s.len(),
    ensures
        byte_len(s.take(i)) + (j - i) <= byte_len(s.take(j)),
    decreases j - i,
{
    if i < j {
        lemma_byte_len_take_mono(s, i, j - 1);
        lemma_byte_len_take_step(s, j - 1);
    }
}

proof fn lemma_byte_cut_char(s: Seq<char>, max: nat, k: int)
    requires
        0 <= k <= s.len(),
        byte_len(s.take(k)) <= max,
        k < s.len() ==> byte_len(s.take(k + 1)) > max,
    ensures
        byte_cut(s, max) == k,
    decreases s.len(),
{
    if s.len() == 0 {
    } else if byte_len(s) <= max {
        if k < s.len() {
            lemma_byte_len_take_mono(s, k + 1, s.len() as int);
            assert(s.take(s.len() as int) =~= s);
        }
    } else {
        if k == s.len() {
            assert(s.take(k) =~= s);
        }
        let t = s.drop_last();
        assert(t.take(k) =~= s.take(k));
        if k < t.len() {
            assert(t.take(k + 1) =~= s.take(k + 1));
        }
        lemma_byte_cut_char(t, max, k);
    }
}

proof fn lemma_suffix_cut_skip(s: Seq<char>, max: nat, k: int)
    requires
        0 <= k <= s.len(),
        forall|j: int| 0 <= j < k ==> byte_len(#[trigger] s.skip(j)) > max,
    ensures
        suffix_cut(s, max) == k + suffix_cut(s.skip(k), max),
    decreases k,
{
    if k > 0 {
        assert(s.skip(0) =~= s);
        let t = s.drop_first();
        assert forall|j: int| 0 <= j < k - 1 implies byte_len(#[trigger] t.skip(j)) > max by {
            assert(t.skip(j) =~= s.skip(j + 1));
        }
        lemma_suffix_cut_skip(t, max, k - 1);
        assert(t.skip(k - 1) =~= s.skip(k));
    } else {
        assert(s.skip(0) =~= s);
    }
}

/// `byte_cut(v, max)`, computed by walking the characters.
pub fn prefix_cut_exec(v: &Vec<char>, max: usize) -> (k: usize)
    ensures
        k == byte_cut(v@, max as nat),
        k <= v.len(),
        byte_len(v@.take(k as int)) <= max,
        k < v.len() ==> byte_len(v@.take(k + 1)) > max,
{
    let mut k: usize = 0;
    let mut total: usize = 0;
    proof {
        assert(v@.take(0) =~= Seq::<char>::empty());
        assert(encode_utf8(Seq::<char>::empty()) =~= Seq::<u8>::empty());
    }
    while k < v.len()
        invariant
            k <= v.len(),
            total == byte_len(v@.take(k as int)),
            total <= max,
        decreases v.len() - k,
    {
        let w = char_width_exec(v[k]);
        proof {
            lemma_byte_len_take_step(v@, k as int);
        }
        if w > max - total {
            proof {
                lemma_byte_cut_char(v@, max as nat, k as int);
            }
            return k;
        }
        total = total + w;
        k += 1;
    }
    proof {
        lemma_byte_cut_char(v@, max as nat, k as int);
    }
    k
}

/// `suffix_cut(v, max)`, given `total == byte_len(v)`.
pub fn suffix_cut_exec(v: &Vec<char>, total: usize, max: usize) -> (k: usize)
    requires
        total == byte_len(v@),
    ensures
        k == suffix_cut(v@, max as nat),
        k <= v.len(),
        byte_len(v@.skip(k as int)) <= max,
{
    let mut k: usize = 0;
    let mut removed: usize = 0;
    proof {
        lemma_byte_len_split(v@, 0);
        assert(v@.skip(0) =~= v@);
    }
    while total - removed > max
        invariant
            k <= v.len(),
            removed <= total,
            total == byte_len(v@),
            removed == byte_len(v@.take(k as int)),
            total - removed == byte_len(v@.skip(k as int)),
            forall|j: int| 0 <= j < k ==> byte_len(#[trigger] v@.skip(j)) > max,
        decreases v.len() - k,
    {
        if k >= v.len() {
            proof {
                assert(v@.skip(k as int) =~= Seq::<char>::empty());
                assert(encode_utf8(Seq::<char>::empty()) =~= Seq::<u8>::empty());
            }
            assert(false);
        }
        let w = char_width_exec(v[k]);
        proof {
            lemma_byte_len_take_step(v@, k as int);
            lemma_byte_len_split(v@, k + 1);
        }
        removed = removed + w;
        k += 1;
    }
    proof {
        lemma_suffix_cut_skip(v@, max as nat, k as int);
        let t = v@.skip(k as int);
        assert(suffix_cut(t, max as nat) == 0);
    }
    k
}

} // verus!

verus! {

/// The text kept by a byte-limited truncation that appends `marker` when it cuts:
/// `(text, false)` when the text fits in `max` bytes, else its longest prefix that fits,
/// followed by `marker`, and `true`.
pub open spec fn truncated_with(s: Seq<char>, max: nat, marker: Seq<char>) -> (Seq<char>, bool) {
    if byte_len(s) <= max {
        (s, false)
    } else {
        (s.take(byte_cut(s, max) as int) + marker, true)
    }
}

/// Truncates `text` to at most `max` bytes on a character boundary, appending `marker` when it cuts.
pub fn truncate_bytes_with(text: &str, max: usize, marker: &str) -> (r: (String, bool))
    ensures
        (r.0@, r.1) == truncated_with(text@, max as nat, marker@),
{
    let v = chars_of(text);
    let k = prefix_cut_exec(&v, max);
    if k == v.len() {
        assert(v@.take(k as int) =~= v@);
        let s = string_from_chars(&v);
        return (s, false);
    }
    proof {
        lemma_byte_len_take_mono(v@, k + 1, v@.len() as int);
        assert(v@.take(v@.len() as int) =~= v@);
    }
    let mut s = string_from_range(&v, 0, k);
    let m = chars_of(marker);
    push_chars(&mut s, &m);
    assert(v@.subrange(0, k as int) =~= v@.take(k as int));
    (s, true)
}

/// The last `max` bytes of `s`, cut forward to a character boundary.
pub open spec fn keep_tail(s: Seq<char>, max: nat) -> Seq<char> {
    s.skip(suffix_cut(s, max) as int)
}

pub proof fn lemma_keep_tail_fits(s: Seq<char>, max: nat)
    ensures
        byte_len(keep_tail(s, max)) <= max || keep_tail(s, max).len() == 0,
        byte_len(s) <= max ==> keep_tail(s, max) == s,
        suffix_cut(s, max) <= s.len(),
    decreases s.len(),
{
    if s.len() == 0 || byte_len(s) <= max {
        assert(s.skip(0) =~= s);
    } else {
        lemma_keep_tail_fits(s.drop_first(), max);
        assert(s.drop_first().skip(suffix_cut(s.drop_first(), max) as int) =~= s.skip(
            suffix_cut(s, max) as int,
        ));
    }
}

} // verus!

verus! {

/// The character sequences of a sequence of strings.
pub open spec fn string_views(v: Seq<String>) -> Seq<Seq<char>> {
    v.map_values(|s: String| s@)
}

/// Appends an owned copy of `s`.
pub fn push_string(v: &mut Vec<String>, s: &str)
    ensures
        string_views(final(v)@) == string_views(old(v)@).push(s@),
{
    v.push(s.to_owned());
    assert(string_views(v@) =~= string_views(old(v)@).push(s@));
}

} // verus!

verus! {

/// Whether two character vectors are equal.
pub fn chars_eq(a: &Vec<char>, b: &Vec<char>) -> (r: bool)
    ensures
        r == (a@ == b@),
{
    if a.len() != b.len() {
        return false;
    }
    let r = occurs_at_exec(a, b, 0);
    proof {
        assert(a@.subrange(0, b@.len() as int) =~= a@);
    }
    r
}

/// Whether two strings are equal.
pub fn str_eq(a: &str, b: &str) -> (r: bool)
    ensures
        r == (a@ == b@),
{
    chars_eq(&chars_of(a), &chars_of(b))
}

} // verus!

verus! {

/// `items` joined with `sep` between consecutive items.
pub open spec fn join(items: Seq<Seq<char>>, sep: Seq<char>) -> Seq<char>
    decreases items.len(),
{
    if items.len() == 0 {
        Seq::<char>::empty()
    } else if items.len() == 1 {
        items[0]
    } else {
        join(items.drop_last(), sep) + sep + items.last()
    }
}

/// The character sequences of a slice of string slices.
pub open spec fn str_views(v: Seq<&str>) -> Seq<Seq<char>> {
    v.map_values(|s: &str| s@)
}

/// `items.join(sep)`.
pub fn join_strs(items: &[&str], sep: &str) -> (r: String)
    ensures
        r@ == join(str_views(items@), sep@),
{
    let mut r = String::new();
    let sepv = chars_of(sep);
    let mut i: usize = 0;
    while i < items.len()
        invariant
            i <= items.len(),
            sepv@ == sep@,
            r@ == join(str_views(items@).take(i as int), sep@),
        decreases items.len() - i,
    {
        let item = chars_of(items[i]);
        let ghost before = r@;
        if i != 0 {
            push_chars(&mut r, &sepv);
        }
        push_chars(&mut r, &item);
        proof {
            let t = str_views(items@).take(i + 1);
            assert(t.drop_last() =~= str_views(items@).take(i as int));
            assert(t.last() == items@[i as int]@);
            if i == 0 {
                assert(Seq::<char>::empty() + items@[0]@ =~= items@[0]@);
            }
        }
        i += 1;
    }
    assert(str_views(items@).take(items.len() as int) =~= str_views(items@));
    r
}

/// Whether `v` holds a string equal to `s`.
pub fn contains_string(v: &Vec<String>, s: &str) -> (b: bool)
    ensures
        b == string_views(v@).contains(s@),
{
    let mut i: usize = 0;
    while i < v.len()
        invariant
            i <= v.len(),
            forall|k: int| 0 <= k < i ==> v@[k]@ != s@,
        decreases v.len() - i,
    {
        if str_eq(v[i].as_str(), s) {
            assert(string_views(v@)[i as int] == s@);
            return true;
        }
        i += 1;
    }
    assert forall|k: int| 0 <= k < string_views(v@).len() implies string_views(v@)[k] != s@ by {
        assert(string_views(v@)[k] == v@[k]@);
    }
    false
}

/// Whether the slice holds a string slice equal to `s`.
pub fn contains_str(v: &[&str], s: &str) -> (b: bool)
    ensures
        b == str_views(v@).contains(s@),
{
    let mut i: usize = 0;
    while i < v.len()
        invariant
            i <= v.len(),
            forall|k: int| 0 <= k < i ==> v@[k]@ != s@,
        decreases v.len() - i,
    {
        if str_eq(v[i], s) {
            assert(str_views(v@)[i as int] == s@);
            return true;
        }
        i += 1;
    }
    assert forall|k: int| 0 <= k < str_views(v@).len() implies str_views(v@)[k] != s@ by {
        assert(str_views(v@)[k] == v@[k]@);
    }
    false
}

} // verus!

verus! {

/// The characters of an optional string.
pub open spec fn opt_view(o: Option<String>) -> Option<Seq<char>> {
    match o {
        Some(s) => Some(s@),
        None => None,
    }
}

} // verus!

verus! {

/// `line` without one trailing carriage return.
pub open spec fn strip_cr(line: Seq<char>) -> Seq<char> {
    if line.len() > 0 && line.last() == '\r' {
        line.drop_last()
    } else {
        line
    }
}

/// The lines completed so far while reading `s` from the start, and the line still open:
/// each `\n` closes the open line, without a carriage return just before it.
pub open spec fn scan_lines(s: Seq<char>) -> (Seq<Seq<char>>, Seq<char>)
    decreases s.len(),
{
    if s.len() == 0 {
        (Seq::<Seq<char>>::empty(), Seq::<char>::empty())
    } else {
        let (done, open) = scan_lines(s.drop_last());
        if s.last() == '\n' {
            (done.push(strip_cr(open)), Seq::<char>::empty())
        } else {
            (done, open.push(s.last()))
        }
    }
}

/// `str::lines`: the lines of `s`, split at `\n` or `\r\n`; a final line ending is optional.
pub open spec fn lines(s: Seq<char>) -> Seq<Seq<char>> {
    let (done, open) = scan_lines(s);
    if open.len() > 0 {
        done.push(open)
    } else {
        done
    }
}

pub proof fn lemma_scan_lines_len(s: Seq<char>)
    ensures
        scan_lines(s).0.len() + scan_lines(s).1.len() <= s.len(),
    decreases s.len(),
{
    if s.len() > 0 {
        lemma_scan_lines_len(s.drop_last());
    }
}

/// The lines of `s`, as `str::lines` gives them.
pub fn split_lines(s: &str) -> (r: Vec<String>)
    ensures
        string_views(r@) == lines(s@),
        r@.len() <= s@.len(),
{
    let v = chars_of(s);
    let mut done: Vec<String> = Vec::new();
    let mut open: Vec<char> = Vec::new();
    let mut i: usize = 0;
    while i < v.len()
        invariant
            i <= v.len(),
            v@ == s@,
            (string_views(done@), open@) == scan_lines(v@.take(i as int)),
        decreases v.len() - i,
    {
        let c = v[i];
        proof {
            assert(v@.take(i + 1).drop_last() =~= v@.take(i as int));
        }
        if c == '\n' {
            let mut k = open.len();
            if k > 0 && open[k - 1] == '\r' {
                k = k - 1;
            }
            let line = string_from_range(&open, 0, k);
            assert(line@ =~= strip_cr(open@));
            let ghost before = string_views(done@);
            done.push(line);
            assert(string_views(done@) =~= before.push(strip_cr(open@)));
            open = Vec::new();
        } else {
            open.push(c);
        }
        i += 1;
    }
    assert(v@.take(v.len() as int) =~= v@);
    if open.len() > 0 {
        let ghost before = string_views(done@);
        done.push(string_from_chars(&open));
        assert(string_views(done@) =~= before.push(open@));
    }
    proof {
        lemma_scan_lines_len(s@);
    }
    done
}

/// `items.join(sep)` over owned strings.
pub fn join_strings(items: &Vec<String>, sep: &str) -> (r: String)
    ensures
        r@ == join(string_views(items@), sep@),
{
    let mut r = String::new();
    let sepv = chars_of(sep);
    let mut i: usize = 0;
    while i < items.len()
        invariant
            i <= items.len(),
            sepv@ == sep@,
            r@ == join(string_views(items@).take(i as int), sep@),
        decreases items.len() - i,
    {
        let item = chars_of(items[i].as_str());
        if i != 0 {
            push_chars(&mut r, &sepv);
        }
        push_chars(&mut r, &item);
        proof {
            let t = string_views(items@).take(i + 1);
            assert(t.drop_last() =~= string_views(items@).take(i as int));
            assert(t.last() == items@[i as int]@);
            if i == 0 {
                assert(Seq::<char>::empty() + items@[0]@ =~= items@[0]@);
            }
        }
        i += 1;
    }
    assert(string_views(items@).take(items.len() as int) =~= string_views(items@));
    r
}

} // verus!

verus! {

/// Calls `String::from_utf8`: the text that `bytes` encode when they are valid UTF-8.
#[verifier::external_body]
pub(crate) fn utf8_to_string(bytes: Vec<u8>) -> (r: Option<String>)
    ensures
        r is Some <==> valid_utf8(bytes@),
        r matches Some(s) ==> s@ == decode_utf8(bytes@),
{
    String::from_utf8(bytes).ok()
}

/// What `String::from_utf8_lossy` gives for `bytes`: their text, with each invalid
/// sequence replaced by U+FFFD.
pub uninterp spec fn utf8_lossy(bytes: Seq<u8>) -> Seq<char>;

/// Calls `String::from_utf8_lossy`; valid UTF-8 comes back decoded as it is.
#[verifier::external_body]
pub(crate) fn lossy_string(bytes: &Vec<u8>) -> (r: String)
    ensures
        r@ == utf8_lossy(bytes@),
        valid_utf8(bytes@) ==> r@ == decode_utf8(bytes@),
{
    String::from_utf8_lossy(bytes).into_owned()
}

/// Whether `bytes` holds a zero byte.
pub fn has_zero_byte(bytes: &Vec<u8>) -> (b: bool)
    ensures
        b == bytes@.contains(0u8),
{
    let mut i: usize = 0;
    while i < bytes.len()
        invariant
            i <= bytes.len(),
            forall|k: int| 0 <= k < i ==> bytes@[k] != 0u8,
        decreases bytes.len() - i,
    {
        if bytes[i] == 0 {
            assert(bytes@[i as int] == 0u8);
            return true;
        }
        i += 1;
    }
    false
}

} // verus!

verus! {

proof fn lemma_trim_start_shape(s: Seq<char>)
    ensures
        trim_start(s).len() == 0 || !is_whitespace(trim_start(s)[0]),
    decreases s.len(),
{
    if s.len() > 0 && is_whitespace(s[0]) {
        lemma_trim_start_shape(s.drop_first());
    }
}

proof fn lemma_trim_end_shape(s: Seq<char>)
    ensures
        trim_end(s).len() <= s.len(),
        trim_end(s) == s.take(trim_end(s).len() as int),
        trim_end(s).len() == 0 || !is_whitespace(trim_end(s).last()),
    decreases s.len(),
{
    if s.len() > 0 && is_whitespace(s.last()) {
        lemma_trim_end_shape(s.drop_last());
        assert(s.drop_last().take(trim_end(s).len() as int) =~= s.take(trim_end(s).len() as int));
    } else {
        assert(s.take(s.len() as int) =~= s);
    }
}

/// Trimming twice is trimming once.
pub proof fn lemma_trim_idempotent(s: Seq<char>)
    ensures
        trim(trim(s)) == trim(s),
{
    let t = trim(s);
    lemma_trim_start_shape(s);
    lemma_trim_end_shape(trim_start(s));
    if t.len() > 0 {
        assert(t[0] == trim_start(s)[0]);
        assert(trim_start(t) == t);
        assert(trim_end(t) == t);
    } else {
        assert(trim_start(t) == t);
    }
}

} // verus!
