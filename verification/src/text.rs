//! Text as sequences of characters: the searching, trimming, splitting and
//! number formatting that the components share.
use vstd::prelude::*;
use vstd::string::*;

verus! {

/// Appends one character to a string (`String::push`).
pub assume_specification[ String::push ](s: &mut String, c: char)
    ensures
        final(s)@ == old(s)@.push(c),
;

/// Unicode's `White_Space` property.
pub open spec fn is_ws(c: char) -> bool {
    let n = c as u32;
    ||| 9 <= n <= 13
    ||| n == 0x20
    ||| n == 0x85
    ||| n == 0xa0
    ||| n == 0x1680
    ||| 0x2000 <= n <= 0x200a
    ||| n == 0x2028
    ||| n == 0x2029
    ||| n == 0x202f
    ||| n == 0x205f
    ||| n == 0x3000
}

/// Whether a character is white space.
pub fn is_whitespace(c: char) -> (r: bool)
    ensures
        r == is_ws(c),
{
    let n: u32 = c as u32;
    (9 <= n && n <= 13) || n == 0x20 || n == 0x85 || n == 0xa0 || n == 0x1680 || (0x2000 <= n && n
        <= 0x200a) || n == 0x2028 || n == 0x2029 || n == 0x202f || n == 0x205f || n == 0x3000
}

/// The characters of a string.
pub fn chars_of(s: &str) -> (v: Vec<char>)
    ensures
        v@ == s@,
{
    let mut v: Vec<char> = Vec::new();
    for c in it: s.chars()
        invariant
            v@ == s@.take(it.index() as int),
            it.seq() == s@,
    {
        v.push(c);
        assert(s@.take(it.index() as int + 1) =~= s@.take(it.index() as int).push(
            s@[it.index() as int],
        ));
    }
    assert(s@.take(s@.len() as int) =~= s@);
    v
}

/// The string made of the characters `v[from..to]`.
pub fn string_of(v: &Vec<char>, from: usize, to: usize) -> (s: String)
    requires
        from <= to <= v@.len(),
    ensures
        s@ == v@.subrange(from as int, to as int),
{
    let mut s = String::new();
    let mut i: usize = from;
    while i < to
        invariant
            from <= i <= to <= v@.len(),
            s@ == v@.subrange(from as int, i as int),
        decreases to - i,
    {
        s.push(v[i]);
        i += 1;
        assert(v@.subrange(from as int, i as int) =~= v@.subrange(from as int, i as int - 1).push(
            v@[i as int - 1],
        ));
    }
    s
}

/// Whether two strings hold the same characters.
pub fn same(a: &str, b: &str) -> (r: bool)
    ensures
        r == (a@ == b@),
{
    let x = a.as_bytes();
    let y = b.as_bytes();
    proof {
        vstd::utf8::encode_utf8_decode_utf8(a@);
        vstd::utf8::encode_utf8_decode_utf8(b@);
    }
    if x.len() != y.len() {
        return false;
    }
    let mut i: usize = 0;
    while i < x.len()
        invariant
            i <= x@.len(),
            x@.len() == y@.len(),
            x@ == a.spec_bytes(),
            y@ == b.spec_bytes(),
            forall|j: int| 0 <= j < i ==> x@[j] == y@[j],
        decreases x@.len() - i,
    {
        if x[i] != y[i] {
            return false;
        }
        i += 1;
    }
    assert(x@ =~= y@);
    true
}


/// Strings (or other values) by what they stand for.
pub open spec fn views<X: View>(s: Seq<X>) -> Seq<X::V> {
    s.map_values(|x: X| x@)
}

pub broadcast proof fn lemma_views_push<X: View>(s: Seq<X>, x: X)
    ensures
        #[trigger] views(s.push(x)) == views(s).push(x@),
{
    assert(views(s.push(x)) =~= views(s).push(x@));
}

pub broadcast proof fn lemma_views_len<X: View>(s: Seq<X>)
    ensures
        #[trigger] views(s).len() == s.len(),
{
}

pub broadcast proof fn lemma_views_index<X: View>(s: Seq<X>, i: int)
    requires
        0 <= i < s.len(),
    ensures
        #[trigger] views(s)[i] == s[i]@,
{
}

pub broadcast group group_views {
    lemma_views_push,
    lemma_views_len,
    lemma_views_index,
}

/// An optional string by what it stands for.
pub open spec fn ov(o: Option<String>) -> Option<Seq<char>> {
    match o {
        Some(s) => Some(s@),
        None => None,
    }
}

/// A copy of a list of strings.
pub fn clone_strings(v: &Vec<String>) -> (r: Vec<String>)
    ensures
        r@ == v@,
{
    let mut out: Vec<String> = Vec::new();
    let mut i: usize = 0;
    while i < v.len()
        invariant
            i <= v@.len(),
            out@ == v@.take(i as int),
        decreases v@.len() - i,
    {
        out.push(v[i].clone());
        i += 1;
        assert(v@.take(i as int) =~= v@.take(i as int - 1).push(v@[i as int - 1]));
    }
    assert(v@.take(i as int) =~= v@);
    out
}

/// A text that is there and not empty.
pub open spec fn nonempty(text: Option<Seq<char>>) -> Option<Seq<char>> {
    match text {
        Some(t) => if t.len() == 0 {
            None
        } else {
            Some(t)
        },
        None => None,
    }
}

/// The text, where it is there and not empty.
pub fn nonempty_text(text: &Option<String>) -> (r: Option<&str>)
    ensures
        match r {
            Some(t) => nonempty(ov(*text)) == Some(t@),
            None => nonempty(ov(*text)) is None,
        },
{
    match text {
        Some(t) => if t.as_str().is_empty() {
            None
        } else {
            Some(t.as_str())
        },
        None => None,
    }
}

/// A copy of an optional string.
pub fn clone_option(o: &Option<String>) -> (r: Option<String>)
    ensures
        r == *o,
{
    match o {
        Some(s) => Some(s.clone()),
        None => None,
    }
}

/// `s` without its leading white space.
pub open spec fn trim_start(s: Seq<char>) -> Seq<char>
    decreases s.len(),
{
    if s.len() > 0 && is_ws(s[0]) {
        trim_start(s.skip(1))
    } else {
        s
    }
}

/// `s` without its trailing white space.
pub open spec fn trim_end(s: Seq<char>) -> Seq<char>
    decreases s.len(),
{
    if s.len() > 0 && is_ws(s.last()) {
        trim_end(s.drop_last())
    } else {
        s
    }
}

/// `s` without white space at either end.
pub open spec fn trimmed(s: Seq<char>) -> Seq<char> {
    trim_end(trim_start(s))
}

/// `s` without the leading characters that equal `c`.
pub open spec fn trim_start_of(s: Seq<char>, c: char) -> Seq<char>
    decreases s.len(),
{
    if s.len() > 0 && s[0] == c {
        trim_start_of(s.skip(1), c)
    } else {
        s
    }
}

/// `s` without the trailing characters that equal `c`.
pub open spec fn trim_end_of(s: Seq<char>, c: char) -> Seq<char>
    decreases s.len(),
{
    if s.len() > 0 && s.last() == c {
        trim_end_of(s.drop_last(), c)
    } else {
        s
    }
}

proof fn lemma_trim_end_is_prefix(s: Seq<char>)
    ensures
        trim_end(s).len() <= s.len(),
        trim_end(s) == s.take(trim_end(s).len() as int),
        trim_end(s).len() > 0 ==> !is_ws(trim_end(s).last()),
    decreases s.len(),
{
    if s.len() > 0 && is_ws(s.last()) {
        lemma_trim_end_is_prefix(s.drop_last());
        assert(s.drop_last().take(trim_end(s).len() as int) =~= s.take(trim_end(s).len() as int));
    } else {
        assert(s.take(s.len() as int) =~= s);
    }
}

proof fn lemma_trim_start_first(s: Seq<char>)
    ensures
        trim_start(s).len() > 0 ==> !is_ws(trim_start(s)[0]),
    decreases s.len(),
{
    if s.len() > 0 && is_ws(s[0]) {
        lemma_trim_start_first(s.skip(1));
    }
}

/// Trimmed text has no white space at its ends, so trimming it again changes nothing.
pub proof fn lemma_trimmed_idempotent(s: Seq<char>)
    ensures
        trimmed(trimmed(s)) == trimmed(s),
{
    let t = trim_start(s);
    lemma_trim_start_first(s);
    lemma_trim_end_is_prefix(t);
}

/// Cuts white space off both ends.
pub fn trim(s: &str) -> (r: &str)
    ensures
        r@ == trimmed(s@),
{
    let v = chars_of(s);
    let n: usize = v.len();
    let mut i: usize = 0;
    assert(s@.skip(0) =~= s@);
    while i < n && is_whitespace(v[i])
        invariant
            i <= n == v@.len(),
            v@ == s@,
            trim_start(s@) == trim_start(s@.skip(i as int)),
        decreases n - i,
    {
        assert(s@.skip(i as int).skip(1) =~= s@.skip(i as int + 1));
        i += 1;
    }
    assert(trim_start(s@) == s@.skip(i as int));
    let mut j: usize = n;
    assert(s@.skip(i as int) =~= s@.subrange(i as int, j as int));
    while i < j && is_whitespace(v[j - 1])
        invariant
            i <= j <= n == v@.len(),
            v@ == s@,
            trim_end(s@.skip(i as int)) == trim_end(s@.subrange(i as int, j as int)),
        decreases j,
    {
        assert(s@.subrange(i as int, j as int).drop_last() =~= s@.subrange(i as int, j as int - 1));
        j -= 1;
    }
    s.substring_char(i, j)
}

/// Cuts leading characters equal to `c` off.
pub fn trim_start_char(s: &str, c: char) -> (r: &str)
    ensures
        r@ == trim_start_of(s@, c),
{
    let v = chars_of(s);
    let n: usize = v.len();
    let mut i: usize = 0;
    assert(s@.skip(0) =~= s@);
    while i < n && v[i] == c
        invariant
            i <= n == v@.len(),
            v@ == s@,
            trim_start_of(s@, c) == trim_start_of(s@.skip(i as int), c),
        decreases n - i,
    {
        assert(s@.skip(i as int).skip(1) =~= s@.skip(i as int + 1));
        i += 1;
    }
    assert(s@.skip(i as int) =~= s@.subrange(i as int, n as int));
    s.substring_char(i, n)
}

/// Cuts trailing characters equal to `c` off.
pub fn trim_end_char(s: &str, c: char) -> (r: &str)
    ensures
        r@ == trim_end_of(s@, c),
{
    let v = chars_of(s);
    let mut j: usize = v.len();
    assert(s@.take(j as int) =~= s@);
    while 0 < j && v[j - 1] == c
        invariant
            j <= v@.len(),
            v@ == s@,
            trim_end_of(s@, c) == trim_end_of(s@.take(j as int), c),
        decreases j,
    {
        assert(s@.take(j as int).drop_last() =~= s@.take(j as int - 1));
        j -= 1;
    }
    assert(s@.take(j as int) =~= s@.subrange(0, j as int));
    s.substring_char(0, j)
}

/// Whether nothing but white space is in `s`.
pub fn is_blank(s: &str) -> (r: bool)
    ensures
        r == (trimmed(s@).len() == 0),
{
    trim(s).is_empty()
}

/// Where `c` first occurs, or the length where it does not.
pub open spec fn first_index(s: Seq<char>, c: char) -> nat
    decreases s.len(),
{
    if s.len() == 0 || s[0] == c {
        0
    } else {
        1 + first_index(s.skip(1), c)
    }
}

/// The index of the first `c` is the only one with no `c` before it.
pub proof fn lemma_first_index(s: Seq<char>, c: char, i: int)
    requires
        0 <= i <= s.len(),
        forall|j: int| 0 <= j < i ==> s[j] != c,
        i < s.len() ==> s[i] == c,
    ensures
        first_index(s, c) == i,
    decreases s.len(),
{
    if s.len() > 0 && s[0] != c {
        lemma_first_index(s.skip(1), c, i - 1);
    }
}

/// What `first_index` says, in terms of the characters.
pub proof fn lemma_first_index_is(s: Seq<char>, c: char)
    ensures
        0 <= first_index(s, c) <= s.len(),
        forall|j: int| 0 <= j < first_index(s, c) ==> s[j] != c,
        first_index(s, c) < s.len() ==> s[first_index(s, c) as int] == c,
    decreases s.len(),
{
    if s.len() > 0 && s[0] != c {
        lemma_first_index_is(s.skip(1), c);
        assert forall|j: int| 0 <= j < first_index(s, c) implies s[j] != c by {
            if j > 0 {
                assert(s.skip(1)[j - 1] == s[j]);
            }
        }
    }
}

/// The index of the first `c` at or after `from`, or the length.
pub fn index_from(v: &Vec<char>, from: usize, c: char) -> (i: usize)
    requires
        from <= v@.len(),
    ensures
        from <= i <= v@.len(),
        forall|j: int| from <= j < i ==> v@[j] != c,
        i < v@.len() ==> v@[i as int] == c,
        i == from + first_index(v@.skip(from as int), c),
{
    let mut i: usize = from;
    while i < v.len() && v[i] != c
        invariant
            from <= i <= v@.len(),
            forall|j: int| from <= j < i ==> v@[j] != c,
        decreases v@.len() - i,
    {
        i += 1;
    }
    proof {
        lemma_first_index(v@.skip(from as int), c, i - from);
    }
    i
}

/// The pieces of `s` between the occurrences of `c`; one more than there are of those.
pub open spec fn split_on(s: Seq<char>, c: char) -> Seq<Seq<char>>
    decreases s.len(),
{
    let i = first_index(s, c) as int;
    if i < s.len() {
        seq![s.take(i)] + split_on(s.skip(i + 1), c)
    } else {
        seq![s]
    }
}

/// Splits a string at every occurrence of `c`.
pub fn split_char(s: &str, c: char) -> (parts: Vec<String>)
    ensures
        views(parts@) == split_on(s@, c),
        parts@.len() >= 1,
{
    let v = chars_of(s);
    let mut parts: Vec<String> = Vec::new();
    let mut start: usize = 0;
    assert(s@.skip(0) =~= s@);
    assert(views(parts@) + split_on(s@, c) =~= split_on(s@, c));
    loop
        invariant
            v@ == s@,
            start <= v@.len(),
            views(parts@) + split_on(s@.skip(start as int), c) == split_on(s@, c),
        decreases v@.len() - start,
    {
        let end: usize = index_from(&v, start, c);
        let ghost rest = s@.skip(start as int);
        let ghost before = views(parts@);
        let piece = string_of(&v, start, end);
        assert(piece@ =~= rest.take(end - start));
        parts.push(piece);
        assert(views(parts@) =~= before.push(piece@));
        if end >= v.len() {
            assert(piece@ =~= rest);
            assert(split_on(rest, c) == seq![rest]);
            assert(views(parts@) =~= before + seq![rest]);
            return parts;
        }
        assert(rest.skip(end - start + 1) =~= s@.skip(end as int + 1));
        assert(split_on(rest, c) == seq![piece@] + split_on(s@.skip(end as int + 1), c));
        assert(views(parts@) + split_on(s@.skip(end as int + 1), c) =~= before + split_on(rest, c));
        start = end + 1;
    }
}

/// Whether `needle` occurs in `s` as a run of characters.
pub open spec fn occurs(s: Seq<char>, needle: Seq<char>) -> bool {
    exists|i: int| #[trigger] occurs_at(s, needle, i)
}

pub open spec fn occurs_at(s: Seq<char>, needle: Seq<char>, i: int) -> bool {
    0 <= i <= s.len() - needle.len() && s.subrange(i, i + needle.len()) == needle
}

fn matches_at(v: &Vec<char>, n: &Vec<char>, i: usize) -> (r: bool)
    requires
        i + n@.len() <= v@.len(),
    ensures
        r == occurs_at(v@, n@, i as int),
{
    let total: usize = v.len();
    let mut j: usize = 0;
    while j < n.len()
        invariant
            j <= n@.len(),
            i + n@.len() <= v@.len() == total,
            forall|k: int| 0 <= k < j ==> v@[i + k] == n@[k],
        decreases n@.len() - j,
    {
        if v[i + j] != n[j] {
            proof {
                if occurs_at(v@, n@, i as int) {
                    assert(v@.subrange(i as int, i + n@.len())[j as int] == n@[j as int]);
                }
            }
            return false;
        }
        j += 1;
    }
    assert(v@.subrange(i as int, i + n@.len()) =~= n@);
    true
}

/// Whether `needle` occurs in `s`.
pub fn contains(s: &str, needle: &str) -> (r: bool)
    ensures
        r == occurs(s@, needle@),
{
    let v = chars_of(s);
    let n = chars_of(needle);
    if n.len() > v.len() {
        return false;
    }
    let last: usize = v.len() - n.len();
    let mut i: usize = 0;
    while i < last
        invariant
            v@ == s@,
            n@ == needle@,
            i <= last == v@.len() - n@.len(),
            forall|k: int| 0 <= k < i ==> !occurs_at(s@, needle@, k),
        decreases last - i,
    {
        if matches_at(&v, &n, i) {
            return true;
        }
        i += 1;
    }
    matches_at(&v, &n, last)
}

/// Whether `s` begins with `prefix`.
pub fn starts_with(s: &str, prefix: &str) -> (r: bool)
    ensures
        r == prefix@.is_prefix_of(s@),
{
    let v = chars_of(s);
    let n = chars_of(prefix);
    if n.len() > v.len() {
        return false;
    }
    let r = matches_at(&v, &n, 0);
    assert(s@.subrange(0, prefix@.len() as int) == prefix@ <==> prefix@.is_prefix_of(s@));
    r
}

/// Whether `s` ends with `suffix`.
pub fn ends_with(s: &str, suffix: &str) -> (r: bool)
    ensures
        r == suffix@.is_suffix_of(s@),
{
    let v = chars_of(s);
    let n = chars_of(suffix);
    if n.len() > v.len() {
        return false;
    }
    let r = matches_at(&v, &n, v.len() - n.len());
    assert(s@.subrange(s@.len() - suffix@.len(), s@.len() as int) == suffix@
        <==> suffix@.is_suffix_of(s@));
    r
}

/// What follows `prefix`, where `s` begins with it.
pub fn strip_prefix<'a>(s: &'a str, prefix: &str) -> (r: Option<&'a str>)
    ensures
        r is Some == prefix@.is_prefix_of(s@),
        r is Some ==> r->0@ == s@.skip(prefix@.len() as int),
{
    if starts_with(s, prefix) {
        let n: usize = s.unicode_len();
        let p: usize = prefix.unicode_len();
        assert(s@.subrange(p as int, n as int) =~= s@.skip(p as int));
        Some(s.substring_char(p, n))
    } else {
        None
    }
}


/// The decimal digit for `d`.
pub open spec fn digit(d: nat) -> char {
    (48 + d) as char
}

/// `n` in decimal.
pub open spec fn decimal(n: nat) -> Seq<char>
    decreases n,
{
    if n < 10 {
        seq![digit(n)]
    } else {
        decimal(n / 10).push(digit(n % 10))
    }
}

/// `n` in decimal, with zeros in front up to `width` characters.
pub open spec fn decimal_padded(n: nat, width: nat) -> Seq<char> {
    let d = decimal(n);
    if d.len() < width {
        Seq::new((width - d.len()) as nat, |i: int| '0') + d
    } else {
        d
    }
}

/// The hexadecimal digit for `d`, in lower case.
pub open spec fn hex_digit(d: nat) -> char {
    if d < 10 {
        (48 + d) as char
    } else {
        (87 + d) as char
    }
}

/// The last `width` hexadecimal digits of `n`.
pub open spec fn hex_fixed(n: nat, width: nat) -> Seq<char>
    decreases width,
{
    if width == 0 {
        Seq::empty()
    } else {
        hex_fixed(n / 16, (width - 1) as nat).push(hex_digit(n % 16))
    }
}

/// `n` in hexadecimal.
pub open spec fn hex(n: nat) -> Seq<char>
    decreases n,
{
    if n < 16 {
        seq![hex_digit(n)]
    } else {
        hex(n / 16).push(hex_digit(n % 16))
    }
}

/// Writes `n` in decimal behind `out`.
pub fn push_decimal(out: &mut String, n: u64)
    ensures
        final(out)@ == old(out)@ + decimal(n as nat),
    decreases n,
{
    if n >= 10 {
        push_decimal(out, n / 10);
    }
    let d: u8 = (n % 10) as u8;
    out.push((48 + d) as char);
    assert(out@ =~= old(out)@ + decimal(n as nat));
}

/// Writes a number of up to 128 bits in decimal behind `out`.
pub fn push_decimal_wide(out: &mut String, n: u128)
    ensures
        final(out)@ == old(out)@ + decimal(n as nat),
    decreases n,
{
    if n >= 10 {
        push_decimal_wide(out, n / 10);
    }
    let d: u8 = (n % 10) as u8;
    out.push((48 + d) as char);
    assert(out@ =~= old(out)@ + decimal(n as nat));
}

/// `n` in decimal.
pub fn to_decimal(n: u64) -> (r: String)
    ensures
        r@ == decimal(n as nat),
{
    let mut out = String::new();
    push_decimal(&mut out, n);
    assert(out@ =~= decimal(n as nat));
    out
}

/// `n` in decimal, padded with zeros up to `width` characters.
pub fn to_decimal_padded(n: u64, width: usize) -> (r: String)
    ensures
        r@ == decimal_padded(n as nat, width as nat),
{
    let d = to_decimal(n);
    let len: usize = d.unicode_len();
    let mut out = String::new();
    let mut i: usize = len;
    while i < width
        invariant
            len <= i,
            len < width ==> i <= width,
            len >= width ==> i == len,
            out@ =~= Seq::new((i - len) as nat, |k: int| '0'),
        decreases width - i,
    {
        out.push('0');
        i += 1;
    }
    out.append(d.as_str());
    assert(out@ =~= decimal_padded(n as nat, width as nat));
    out
}

fn hex_char(d: u8) -> (c: char)
    requires
        d < 16,
    ensures
        c == hex_digit(d as nat),
{
    if d < 10 {
        (48 + d) as char
    } else {
        (87 + d) as char
    }
}

/// The last `width` hexadecimal digits of `n`, behind `out`.
pub fn push_hex_fixed(out: &mut String, n: u64, width: usize)
    ensures
        final(out)@ == old(out)@ + hex_fixed(n as nat, width as nat),
    decreases width,
{
    if width > 0 {
        push_hex_fixed(out, n / 16, width - 1);
        out.push(hex_char((n % 16) as u8));
    }
    assert(out@ =~= old(out)@ + hex_fixed(n as nat, width as nat));
}

/// Writes `n` in hexadecimal behind `out`.
pub fn push_hex(out: &mut String, n: u128)
    ensures
        final(out)@ == old(out)@ + hex(n as nat),
    decreases n,
{
    if n >= 16 {
        push_hex(out, n / 16);
    }
    out.push(hex_char((n % 16) as u8));
    assert(out@ =~= old(out)@ + hex(n as nat));
}

pub open spec fn is_digit(c: char) -> bool {
    '0' <= c <= '9'
}

/// The number that a run of decimal digits stands for.
pub open spec fn digits_value(s: Seq<char>) -> nat
    decreases s.len(),
{
    if s.len() == 0 {
        0
    } else {
        (digits_value(s.drop_last()) * 10 + (s.last() as int - 48)) as nat
    }
}

pub open spec fn all_digits(s: Seq<char>) -> bool {
    forall|i: int| 0 <= i < s.len() ==> is_digit(#[trigger] s[i])
}

/// `s` without one leading `+`.
pub open spec fn after_plus(s: Seq<char>) -> Seq<char> {
    if s.len() > 0 && s[0] == '+' {
        s.skip(1)
    } else {
        s
    }
}

/// The number that `s` writes: decimal digits, with at most one `+` in front.
pub open spec fn parsed(s: Seq<char>) -> Option<nat> {
    let t = after_plus(s);
    if t.len() > 0 && all_digits(t) {
        Some(digits_value(t))
    } else {
        None
    }
}

/// The number that `s` writes, where it is at most `max`.
pub open spec fn parsed_upto(s: Seq<char>, max: nat) -> Option<nat> {
    match parsed(s) {
        Some(n) if n <= max => Some(n),
        _ => None,
    }
}

proof fn lemma_digits_grow(t: Seq<char>, k: int)
    requires
        0 <= k <= t.len(),
        all_digits(t),
    ensures
        digits_value(t.take(k)) <= digits_value(t),
    decreases t.len() - k,
{
    if k < t.len() {
        lemma_digits_grow(t, k + 1);
        assert(t.take(k + 1).drop_last() =~= t.take(k));
        assert(is_digit(t[k]));
    } else {
        assert(t.take(k) =~= t);
    }
}

/// Reads a number of at most `max`: decimal digits, with at most one `+` in front.
pub fn parse_number(s: &str, max: u64) -> (r: Option<u64>)
    ensures
        match r {
            Some(n) => parsed_upto(s@, max as nat) == Some(n as nat),
            None => parsed_upto(s@, max as nat) is None,
        },
{
    let v = chars_of(s);
    let n: usize = v.len();
    let start: usize = if n > 0 && v[0] == '+' {
        1
    } else {
        0
    };
    let ghost t = after_plus(s@);
    assert(t =~= s@.skip(start as int));
    if start == n {
        return None;
    }
    let mut i: usize = start;
    let mut acc: u64 = 0;
    while i < n
        invariant
            start <= i <= n == v@.len(),
            v@ == s@,
            t == s@.skip(start as int),
            forall|k: int| 0 <= k < i - start ==> is_digit(#[trigger] t[k]),
            acc == digits_value(t.take(i - start)),
            acc <= max,
            t == after_plus(s@),
        decreases n - i,
    {
        let c = v[i];
        assert(t[i - start] == c);
        if c < '0' || c > '9' {
            assert(!is_digit(t[i - start]));
            return None;
        }
        let d: u64 = (c as u32 - 48) as u64;
        assert(t.take(i - start + 1).drop_last() =~= t.take(i - start));
        assert(digits_value(t.take(i - start + 1)) == acc * 10 + d);
        proof {
            if parsed(s@) is Some {
                lemma_digits_grow(t, i - start + 1);
            }
        }
        if acc > max / 10 || d > max || acc * 10 > max - d {
            return None;
        }
        acc = acc * 10 + d;
        i += 1;
    }
    assert(t.take(n - start) =~= t);
    Some(acc)
}

proof fn lemma_decimal_digits(n: nat)
    ensures
        decimal(n).len() >= 1,
        all_digits(decimal(n)),
        digits_value(decimal(n)) == n,
    decreases n,
{
    if n < 10 {
        assert(seq![digit(n)].drop_last() =~= Seq::empty());
        assert(digits_value(Seq::<char>::empty()) == 0);
    } else {
        lemma_decimal_digits(n / 10);
        assert(decimal(n).drop_last() =~= decimal(n / 10));
    }
}

/// Reading a number back gives what was written.
pub proof fn law_decimal_reads_back(n: nat)
    ensures
        parsed(decimal(n)) == Some(n),
{
    lemma_decimal_digits(n);
    assert(is_digit(decimal(n)[0]));
}

/// A greater number has no fewer digits.
pub proof fn lemma_decimal_grows(a: nat, b: nat)
    requires
        a <= b,
    ensures
        decimal(a).len() <= decimal(b).len(),
    decreases b,
{
    if a >= 10 {
        lemma_decimal_grows(a / 10, b / 10);
    }
}

proof fn lemma_zeros_before(zeros: Seq<char>, d: Seq<char>)
    requires
        forall|i: int| 0 <= i < zeros.len() ==> zeros[i] == '0',
    ensures
        digits_value(zeros + d) == digits_value(d),
    decreases zeros.len() + d.len(),
{
    let all = zeros + d;
    if d.len() > 0 {
        assert(all.drop_last() =~= zeros + d.drop_last());
        assert(all.last() == d.last());
        lemma_zeros_before(zeros, d.drop_last());
    } else if zeros.len() > 0 {
        assert(all.drop_last() =~= zeros.drop_last() + d);
        assert(all.last() == '0');
        lemma_zeros_before(zeros.drop_last(), d);
    } else {
        assert(all =~= d);
    }
}

/// A padded number has the width that it is padded to, and keeps its value.
pub proof fn lemma_padded(n: nat, width: nat)
    requires
        decimal(n).len() <= width,
    ensures
        decimal_padded(n, width).len() == width,
        digits_value(decimal_padded(n, width)) == n,
{
    lemma_decimal_digits(n);
    let d = decimal(n);
    if d.len() < width {
        lemma_zeros_before(Seq::new((width - d.len()) as nat, |i: int| '0'), d);
    }
}

/// The lower-case form of a text.
pub uninterp spec fn lowercase(s: Seq<char>) -> Seq<char>;

/// An ASCII letter in lower case; any other character as it is.
pub open spec fn ascii_lower(c: char) -> char {
    if 'A' <= c <= 'Z' {
        (c as u32 + 32) as char
    } else {
        c
    }
}

/// The lower-case form of `s` (`str::to_lowercase`), a function of its characters. Of an
/// ASCII text it changes the letters `A` to `Z` alone.
#[verifier::external_body]
pub(crate) fn to_lowercase(s: &str) -> (r: String)
    ensures
        r@ == lowercase(s@),
        vstd::utf8::is_ascii_chars(s@) ==> r@ == s@.map_values(|c: char| ascii_lower(c)),
{
    s.to_lowercase()
}

/// The text that stands for bytes which may not be valid UTF-8.
pub uninterp spec fn utf8_lossy(bytes: Seq<u8>) -> Seq<char>;

/// The text of `bytes` (`String::from_utf8_lossy`), a function of the bytes: what they encode
/// where they are valid UTF-8.
#[verifier::external_body]
pub(crate) fn from_utf8_lossy(bytes: &Vec<u8>) -> (r: String)
    ensures
        r@ == utf8_lossy(bytes@),
        vstd::utf8::valid_utf8(bytes@) ==> r@ == vstd::utf8::decode_utf8(bytes@),
{
    String::from_utf8_lossy(bytes).into_owned()
}

/// Whether two texts differ in nothing but the case of ASCII letters.
pub open spec fn same_ignoring_ascii_case(a: Seq<char>, b: Seq<char>) -> bool {
    a.len() == b.len() && forall|i: int|
        0 <= i < a.len() ==> ascii_lower(#[trigger] a[i]) == ascii_lower(b[i])
}

fn lower_ascii(c: char) -> (r: char)
    ensures
        r == ascii_lower(c),
{
    if 'A' <= c && c <= 'Z' {
        ((c as u32 as u8) + 32) as char
    } else {
        c
    }
}

/// Compares two strings without regard to the case of ASCII letters.
pub fn eq_ignore_ascii_case(a: &str, b: &str) -> (r: bool)
    ensures
        r == same_ignoring_ascii_case(a@, b@),
{
    let x = chars_of(a);
    let y = chars_of(b);
    if x.len() != y.len() {
        return false;
    }
    let mut i: usize = 0;
    while i < x.len()
        invariant
            i <= x@.len() == y@.len(),
            x@ == a@,
            y@ == b@,
            forall|k: int| 0 <= k < i ==> ascii_lower(#[trigger] a@[k]) == ascii_lower(b@[k]),
        decreases x@.len() - i,
    {
        if lower_ascii(x[i]) != lower_ascii(y[i]) {
            assert(ascii_lower(a@[i as int]) != ascii_lower(b@[i as int]));
            return false;
        }
        i += 1;
    }
    true
}


/// How many bytes a character takes in UTF-8.
pub open spec fn char_width(c: char) -> nat {
    let n = c as u32;
    if n < 0x80 {
        1
    } else if n < 0x800 {
        2
    } else if n < 0x10000 {
        3
    } else {
        4
    }
}

/// How many bytes a text takes in UTF-8.
pub open spec fn byte_len(s: Seq<char>) -> nat
    decreases s.len(),
{
    if s.len() == 0 {
        0
    } else {
        byte_len(s.drop_last()) + char_width(s.last())
    }
}

/// The bytes that a character takes.
pub fn width_of(c: char) -> (w: usize)
    ensures
        w == char_width(c),
        1 <= w <= 4,
{
    let n: u32 = c as u32;
    if n < 0x80 {
        1
    } else if n < 0x800 {
        2
    } else if n < 0x10000 {
        3
    } else {
        4
    }
}

proof fn lemma_encode_last(s: Seq<char>)
    requires
        s.len() > 0,
    ensures
        vstd::utf8::encode_utf8(s) == vstd::utf8::encode_utf8(s.drop_last())
            + vstd::utf8::encode_scalar(s.last() as u32),
    decreases s.len(),
{
    use_encode(s);
    if s.len() == 1 {
        assert(s.drop_last() =~= Seq::<char>::empty());
        assert(s.drop_first() =~= Seq::<char>::empty());
        assert(vstd::utf8::encode_utf8(s) =~= vstd::utf8::encode_utf8(s.drop_last())
            + vstd::utf8::encode_scalar(s.last() as u32));
    } else {
        lemma_encode_last(s.drop_first());
        assert(s.drop_first().drop_last() =~= s.drop_last().drop_first());
        assert(s.drop_last()[0] == s[0]);
        assert(vstd::utf8::encode_utf8(s) =~= vstd::utf8::encode_utf8(s.drop_last())
            + vstd::utf8::encode_scalar(s.last() as u32));
    }
}

proof fn use_encode(s: Seq<char>)
    requires
        s.len() > 0,
    ensures
        vstd::utf8::encode_utf8(s) == vstd::utf8::encode_scalar(s[0] as u32)
            + vstd::utf8::encode_utf8(s.drop_first()),
{
}

/// The length in bytes is that of the encoding.
pub proof fn lemma_byte_len(s: Seq<char>)
    ensures
        byte_len(s) == vstd::utf8::encode_utf8(s).len(),
    decreases s.len(),
{
    if s.len() > 0 {
        lemma_byte_len(s.drop_last());
        lemma_encode_last(s);
        vstd::utf8::char_is_scalar(s.last());
    }
}

/// The length of a text in bytes.
pub fn utf8_len(s: &str) -> (n: usize)
    ensures
        n == byte_len(s@),
{
    proof {
        lemma_byte_len(s@);
    }
    s.as_bytes().len()
}

/// The length of two texts one behind the other.
pub proof fn lemma_byte_len_add(a: Seq<char>, b: Seq<char>)
    ensures
        byte_len(a + b) == byte_len(a) + byte_len(b),
    decreases b.len(),
{
    if b.len() == 0 {
        assert(a + b =~= a);
    } else {
        lemma_byte_len_add(a, b.drop_last());
        assert((a + b).drop_last() =~= a + b.drop_last());
        assert((a + b).last() == b.last());
    }
}

/// The longest prefix of `s` that takes at most `max` bytes.
pub open spec fn cut(s: Seq<char>, max: nat) -> Seq<char>
    decreases s.len(),
{
    if byte_len(s) <= max || s.len() == 0 {
        s
    } else {
        cut(s.drop_last(), max)
    }
}

pub proof fn lemma_cut(s: Seq<char>, max: nat, k: int)
    requires
        0 <= k <= s.len(),
        byte_len(s.take(k)) <= max,
        k < s.len() ==> byte_len(s.take(k + 1)) > max,
    ensures
        cut(s, max) == s.take(k),
    decreases s.len(),
{
    if k == s.len() {
        assert(s.take(k) =~= s);
    } else {
        lemma_byte_len_add(s.take(k + 1), s.skip(k + 1));
        assert(s.take(k + 1) + s.skip(k + 1) =~= s);
        let d = s.drop_last();
        assert(d.take(k) =~= s.take(k));
        if k < d.len() {
            assert(d.take(k + 1) =~= s.take(k + 1));
        }
        lemma_cut(d, max, k);
    }
}

/// What a cut leaves fits, and is a prefix.
pub proof fn lemma_cut_fits(s: Seq<char>, max: nat)
    ensures
        byte_len(cut(s, max)) <= max,
        cut(s, max).len() <= s.len(),
        cut(s, max) == s.take(cut(s, max).len() as int),
    decreases s.len(),
{
    if byte_len(s) <= max || s.len() == 0 {
        assert(s.take(s.len() as int) =~= s);
    } else {
        lemma_cut_fits(s.drop_last(), max);
        assert(s.drop_last().take(cut(s, max).len() as int) =~= s.take(cut(s, max).len() as int));
    }
}

/// How many characters the longest prefix of `v[..end]` with at most `max` bytes has.
pub fn cut_at(v: &Vec<char>, end: usize, max: usize) -> (k: usize)
    requires
        end <= v@.len(),
    ensures
        k <= end,
        v@.take(k as int) == cut(v@.take(end as int), max as nat),
{
    let ghost s = v@.take(end as int);
    let mut k: usize = 0;
    let mut used: usize = 0;
    assert(s.take(0) =~= Seq::<char>::empty());
    while k < end
        invariant_except_break
            k <= end <= v@.len(),
            s == v@.take(end as int),
            used == byte_len(s.take(k as int)),
            used <= max,
        ensures
            k <= end <= v@.len(),
            byte_len(s.take(k as int)) <= max,
            k < end ==> byte_len(s.take(k as int + 1)) > max,
        decreases end - k,
    {
        let w: usize = width_of(v[k]);
        assert(s.take(k as int + 1).drop_last() =~= s.take(k as int));
        assert(s.take(k as int + 1).last() == v@[k as int]);
        if w > max - used {
            break;
        }
        used += w;
        k += 1;
    }
    proof {
        lemma_cut(s, max as nat, k as int);
        assert(s.take(k as int) =~= v@.take(k as int));
    }
    k
}

/// Where `c` last occurs; -1 where it does not.
pub open spec fn last_index(s: Seq<char>, c: char) -> int
    decreases s.len(),
{
    if s.len() == 0 {
        -1
    } else if s.last() == c {
        s.len() - 1
    } else {
        last_index(s.drop_last(), c)
    }
}

pub proof fn lemma_last_index(s: Seq<char>, c: char, i: int)
    requires
        -1 <= i < s.len(),
        forall|j: int| i < j < s.len() ==> s[j] != c,
        i >= 0 ==> s[i] == c,
    ensures
        last_index(s, c) == i,
    decreases s.len(),
{
    if s.len() > 0 && s.last() != c {
        assert(i < s.len() - 1);
        lemma_last_index(s.drop_last(), c, i);
    }
}

pub proof fn lemma_last_index_is(s: Seq<char>, c: char)
    ensures
        -1 <= last_index(s, c) < s.len(),
        forall|j: int| last_index(s, c) < j < s.len() ==> s[j] != c,
        last_index(s, c) >= 0 ==> s[last_index(s, c)] == c,
    decreases s.len(),
{
    if s.len() > 0 && s.last() != c {
        lemma_last_index_is(s.drop_last(), c);
        assert forall|j: int| last_index(s, c) < j < s.len() implies s[j] != c by {
            if j < s.len() - 1 {
                assert(s.drop_last()[j] == s[j]);
            }
        }
    }
}

/// One past the place where `c` last occurs; 0 where it does not.
pub fn after_last_index(v: &Vec<char>, c: char) -> (i: usize)
    ensures
        i == last_index(v@, c) + 1,
        i <= v@.len(),
{
    let mut i: usize = v.len();
    while i > 0 && v[i - 1] != c
        invariant
            i <= v@.len(),
            forall|j: int| i <= j < v@.len() ==> v@[j] != c,
        decreases i,
    {
        i -= 1;
    }
    proof {
        lemma_last_index(v@, c, i - 1);
    }
    i
}

/// The number of characters before the first white space.
pub open spec fn word_len(s: Seq<char>) -> nat
    decreases s.len(),
{
    if s.len() == 0 || is_ws(s[0]) {
        0
    } else {
        1 + word_len(s.skip(1))
    }
}

/// The runs of characters between white space.
pub open spec fn words_of(s: Seq<char>) -> Seq<Seq<char>>
    decreases s.len(),
{
    if s.len() == 0 {
        Seq::empty()
    } else if is_ws(s[0]) {
        words_of(s.skip(1))
    } else {
        proof {
            lemma_word_fits(s.skip(1));
        }
        seq![s.take(1 + word_len(s.skip(1)) as int)] + words_of(
            s.skip(1 + word_len(s.skip(1)) as int),
        )
    }
}

pub proof fn lemma_word_fits(s: Seq<char>)
    ensures
        word_len(s) <= s.len(),
    decreases s.len(),
{
    if s.len() > 0 && !is_ws(s[0]) {
        lemma_word_fits(s.skip(1));
    }
}

proof fn lemma_word_len(s: Seq<char>, k: int)
    requires
        0 <= k <= s.len(),
        forall|j: int| 0 <= j < k ==> !is_ws(#[trigger] s[j]),
        k < s.len() ==> is_ws(s[k]),
    ensures
        word_len(s) == k,
    decreases k,
{
    if k > 0 {
        assert(!is_ws(s[0]));
        assert forall|j: int| 0 <= j < k - 1 implies !is_ws(#[trigger] s.skip(1)[j]) by {
            assert(!is_ws(s[j + 1]));
        }
        lemma_word_len(s.skip(1), k - 1);
    }
}

/// The runs of characters between white space.
pub fn split_whitespace(s: &str) -> (words: Vec<String>)
    ensures
        views(words@) == words_of(s@),
{
    let v = chars_of(s);
    let total: usize = v.len();
    let mut words: Vec<String> = Vec::new();
    let mut i: usize = 0;
    assert(s@.skip(0) =~= s@);
    assert(views(words@) + words_of(s@) =~= words_of(s@));
    while i < total
        invariant
            i <= total == v@.len(),
            v@ == s@,
            views(words@) + words_of(s@.skip(i as int)) == words_of(s@),
        decreases total - i,
    {
        let ghost rest = s@.skip(i as int);
        assert(rest.skip(1) =~= s@.skip(i as int + 1));
        if is_whitespace(v[i]) {
            i += 1;
        } else {
            let mut end: usize = i + 1;
            while end < total && !is_whitespace(v[end])
                invariant
                    i < end <= total == v@.len(),
                    forall|j: int| i < j < end ==> !is_ws(#[trigger] v@[j]),
                decreases total - end,
            {
                end += 1;
            }
            proof {
                let k = end - i - 1;
                assert forall|j: int| 0 <= j < k implies !is_ws(#[trigger] rest.skip(1)[j]) by {
                    assert(!is_ws(v@[i + 1 + j]));
                }
                lemma_word_len(rest.skip(1), k);
                assert(rest.take(1 + k) =~= v@.subrange(i as int, end as int));
                assert(rest.skip(1 + k) =~= s@.skip(end as int));
            }
            let ghost before = views(words@);
            let word = string_of(&v, i, end);
            words.push(word);
            assert(views(words@) + words_of(s@.skip(end as int)) =~= before + (seq![word@]
                + words_of(s@.skip(end as int))));
            i = end;
        }
    }
    assert(views(words@) + words_of(s@.skip(i as int)) =~= views(words@));
    words
}

/// Whether a text is a run of characters without white space.
pub open spec fn is_run(word: Seq<char>) -> bool {
    word.len() > 0 && forall|k: int| 0 <= k < word.len() ==> !is_ws(#[trigger] word[k])
}

/// Words are not empty and hold no white space.
pub proof fn law_words_hold_no_white_space(s: Seq<char>)
    ensures
        forall|i: int| 0 <= i < words_of(s).len() ==> is_run(#[trigger] words_of(s)[i]),
    decreases s.len(),
{
    if s.len() > 0 {
        if is_ws(s[0]) {
            law_words_hold_no_white_space(s.skip(1));
            assert(words_of(s) == words_of(s.skip(1)));
        } else {
            let n = 1 + word_len(s.skip(1)) as int;
            lemma_word_len_is(s.skip(1));
            let rest = words_of(s.skip(n));
            law_words_hold_no_white_space(s.skip(n));
            assert(words_of(s) == seq![s.take(n)] + rest);
            let first = s.take(n);
            assert forall|k: int| 0 <= k < first.len() implies !is_ws(#[trigger] first[k]) by {
                if k > 0 {
                    assert(s.skip(1)[k - 1] == s[k]);
                }
            }
            assert forall|i: int| 0 <= i < words_of(s).len() implies is_run(
                #[trigger] words_of(s)[i],
            ) by {
                if i > 0 {
                    assert(words_of(s)[i] == rest[i - 1]);
                }
            }
        }
    }
}

proof fn lemma_word_len_is(s: Seq<char>)
    ensures
        word_len(s) <= s.len(),
        forall|k: int| 0 <= k < word_len(s) ==> !is_ws(#[trigger] s[k]),
        word_len(s) < s.len() ==> is_ws(s[word_len(s) as int]),
    decreases s.len(),
{
    if s.len() > 0 && !is_ws(s[0]) {
        lemma_word_len_is(s.skip(1));
        assert forall|k: int| 0 <= k < word_len(s) implies !is_ws(#[trigger] s[k]) by {
            if k > 0 {
                assert(s.skip(1)[k - 1] == s[k]);
            }
        }
    }
}

/// A text without white space is one word, and none where it is empty.
pub proof fn law_a_run_is_one_word(s: Seq<char>)
    requires
        forall|k: int| 0 <= k < s.len() ==> !is_ws(#[trigger] s[k]),
    ensures
        s.len() > 0 ==> words_of(s) == seq![s],
        s.len() == 0 ==> words_of(s).len() == 0,
{
    if s.len() > 0 {
        assert forall|j: int| 0 <= j < s.skip(1).len() implies !is_ws(#[trigger] s.skip(1)[j]) by {
            assert(!is_ws(s[j + 1]));
        }
        lemma_word_len(s.skip(1), s.len() - 1);
        assert(s.take(s.len() as int) =~= s);
        assert(words_of(s.skip(s.len() as int)).len() == 0);
        assert(words_of(s) =~= seq![s]);
    }
}

/// White space parts words: the words of two texts with white space between them are those of the
/// one and those of the other.
pub proof fn law_white_space_parts_words(a: Seq<char>, c: char, b: Seq<char>)
    requires
        is_ws(c),
    ensures
        words_of(a.push(c) + b) == words_of(a) + words_of(b),
    decreases a.len(),
{
    let s = a.push(c) + b;
    if a.len() == 0 {
        assert(s.skip(1) =~= b);
        assert(words_of(a) + words_of(b) =~= words_of(b));
    } else if is_ws(a[0]) {
        law_white_space_parts_words(a.skip(1), c, b);
        assert(s.skip(1) =~= a.skip(1).push(c) + b);
    } else {
        let n = 1 + word_len(a.skip(1)) as int;
        lemma_word_len_is(a.skip(1));
        let t = s.skip(1);
        assert forall|j: int| 0 <= j < n - 1 implies !is_ws(#[trigger] t[j]) by {
            assert(t[j] == a.skip(1)[j]);
        }
        assert(is_ws(t[n - 1])) by {
            if n - 1 < a.skip(1).len() {
                assert(t[n - 1] == a.skip(1)[n - 1]);
            } else {
                assert(t[n - 1] == c);
            }
        }
        lemma_word_len(t, n - 1);
        assert(s.take(n) =~= a.take(n));
        assert(s.skip(n) =~= a.skip(n).push(c) + b);
        law_white_space_parts_words(a.skip(n), c, b);
        assert(words_of(a) == seq![a.take(n)] + words_of(a.skip(n)));
        assert(words_of(s) == seq![s.take(n)] + words_of(s.skip(n)));
        assert(words_of(s) =~= words_of(a) + words_of(b));
    }
}

proof fn lemma_trim_start_is_suffix(s: Seq<char>)
    ensures
        trim_start(s).len() <= s.len(),
        trim_start(s) == s.skip(s.len() - trim_start(s).len()),
        forall|k: int| 0 <= k < s.len() - trim_start(s).len() ==> is_ws(#[trigger] s[k]),
    decreases s.len(),
{
    if s.len() > 0 && is_ws(s[0]) {
        let t = s.skip(1);
        lemma_trim_start_is_suffix(t);
        let n = s.len() - trim_start(s).len();
        assert(t.skip(n - 1) =~= s.skip(n));
        assert forall|k: int| 0 <= k < n implies is_ws(#[trigger] s[k]) by {
            if k > 0 {
                assert(t[k - 1] == s[k]);
            }
        }
    } else {
        assert(s.skip(0) =~= s);
    }
}

proof fn lemma_trim_end_cuts(s: Seq<char>)
    ensures
        forall|k: int| trim_end(s).len() <= k < s.len() ==> is_ws(#[trigger] s[k]),
    decreases s.len(),
{
    if s.len() > 0 && is_ws(s.last()) {
        let t = s.drop_last();
        lemma_trim_end_cuts(t);
        assert forall|k: int| trim_end(s).len() <= k < s.len() implies is_ws(#[trigger] s[k]) by {
            if k < t.len() {
                assert(t[k] == s[k]);
            }
        }
    }
}

/// Trimming cuts white space off both ends and nothing else: what is left stood in one piece, what
/// is gone was white space, and no end of what is left is.
pub proof fn law_trimming_cuts_white_space_alone(s: Seq<char>)
    ensures
        exists|i: int, j: int|
            0 <= i <= j <= s.len() && trimmed(s) == #[trigger] s.subrange(i, j) && (forall|k: int|
                0 <= k < i || j <= k < s.len() ==> is_ws(#[trigger] s[k])),
        trimmed(s).len() > 0 ==> !is_ws(trimmed(s)[0]) && !is_ws(trimmed(s).last()),
{
    let t = trim_start(s);
    lemma_trim_start_is_suffix(s);
    lemma_trim_start_first(s);
    lemma_trim_end_is_prefix(t);
    lemma_trim_end_cuts(t);
    let i = s.len() - t.len();
    let j = i + trimmed(s).len();
    assert(trimmed(s) =~= s.subrange(i, j));
    assert forall|k: int| 0 <= k < i || j <= k < s.len() implies is_ws(#[trigger] s[k]) by {
        if j <= k {
            assert(t[k - i] == s[k]);
        }
    }
}

/// Texts with a character between each two of them.
pub open spec fn joined_by(parts: Seq<Seq<char>>, c: char) -> Seq<char>
    decreases parts.len(),
{
    if parts.len() == 0 {
        Seq::empty()
    } else if parts.len() == 1 {
        parts[0]
    } else {
        parts[0].push(c) + joined_by(parts.skip(1), c)
    }
}

/// Splitting loses nothing: the pieces hold no separator, and joined by it they are the text again.
pub proof fn law_splitting_loses_nothing(s: Seq<char>, c: char)
    ensures
        split_on(s, c).len() >= 1,
        joined_by(split_on(s, c), c) == s,
        forall|i: int, k: int|
            0 <= i < split_on(s, c).len() && 0 <= k < split_on(s, c)[i].len()
                ==> #[trigger] split_on(s, c)[i][k] != c,
    decreases s.len(),
{
    let i = first_index(s, c) as int;
    lemma_first_index_is(s, c);
    let all = split_on(s, c);
    if i < s.len() {
        let rest = split_on(s.skip(i + 1), c);
        law_splitting_loses_nothing(s.skip(i + 1), c);
        assert(all.skip(1) =~= rest);
        assert(s =~= s.take(i).push(c) + s.skip(i + 1));
        assert forall|p: int, k: int|
            0 <= p < all.len() && 0 <= k < all[p].len() implies #[trigger] all[p][k] != c by {
            if p > 0 {
                assert(all[p] == rest[p - 1]);
            }
        }
    }
}

/// White space around a text is cut off, and a text without any at its ends stays whole.
pub proof fn law_white_space_around_is_cut(before: Seq<char>, s: Seq<char>, after: Seq<char>)
    requires
        s.len() > 0,
        !is_ws(s[0]),
        !is_ws(s.last()),
        forall|k: int| 0 <= k < before.len() ==> is_ws(#[trigger] before[k]),
        forall|k: int| 0 <= k < after.len() ==> is_ws(#[trigger] after[k]),
    ensures
        trimmed(before + s + after) == s,
{
    let all = before + s + after;
    law_trimming_cuts_white_space_alone(all);
    let (i, j) = choose|i: int, j: int|
        0 <= i <= j <= all.len() && trimmed(all) == #[trigger] all.subrange(i, j) && (forall|k: int|
            0 <= k < i || j <= k < all.len() ==> is_ws(#[trigger] all[k]));
    let p = before.len() as int;
    let q = p + s.len();
    assert(all[p] == s[0] && all[q - 1] == s.last());
    assert(i <= p && q <= j);
    assert(trimmed(all)[0] == all[i]);
    assert(trimmed(all).last() == all[j - 1]);
    if i < p {
        assert(all[i] == before[i]);
    }
    if q < j {
        assert(all[j - 1] == after[j - 1 - q]);
    }
    assert(all.subrange(i, j) =~= s);
}

/// A separator parts a text from what follows it; a text without one is a single piece.
pub proof fn law_a_separator_parts_a_text(a: Seq<char>, c: char, b: Seq<char>)
    requires
        forall|k: int| 0 <= k < a.len() ==> #[trigger] a[k] != c,
    ensures
        split_on(a, c) == seq![a],
        split_on(a.push(c) + b, c) == seq![a] + split_on(b, c),
{
    lemma_first_index(a, c, a.len() as int);
    let all = a.push(c) + b;
    assert forall|j: int| 0 <= j < a.len() implies all[j] != c by {
        assert(all[j] == a[j]);
    }
    lemma_first_index(all, c, a.len() as int);
    assert(all.take(a.len() as int) =~= a);
    assert(all.skip(a.len() as int + 1) =~= b);
}

/// Decimal numbers are written digit by digit, the most significant first: ten times a number and
/// a digit more is written as the number and that digit.
pub proof fn law_decimal_is_positional(n: nat, d: nat)
    requires
        d < 10,
    ensures
        decimal(d) == seq![('0' as u32 + d) as char],
        n > 0 ==> decimal(10 * n + d) == decimal(n).push(('0' as u32 + d) as char),
{
    if n > 0 {
        assert((10 * n + d) / 10 == n);
        assert((10 * n + d) % 10 == d);
    }
}

/// A decimal number is digits and nothing else; there is no white space to cut off it.
pub proof fn law_decimal_is_plain_text(n: nat)
    ensures
        decimal(n).len() > 0,
        forall|k: int| 0 <= k < decimal(n).len() ==> '0' <= #[trigger] decimal(n)[k] <= '9',
        trimmed(decimal(n)) == decimal(n),
{
    let d = decimal(n);
    lemma_decimal_digits(n);
    assert forall|k: int| 0 <= k < d.len() implies '0' <= #[trigger] d[k] <= '9' by {
        assert(is_digit(d[k]));
    }
    let none = Seq::<char>::empty();
    law_white_space_around_is_cut(none, d, none);
    assert(none + d + none =~= d);
}

/// Hexadecimal numbers are written digit by digit, the most significant first, in the digits `0` to
/// `9` and `a` to `f`.
pub proof fn law_hex_is_positional(n: nat, d: nat)
    requires
        d < 16,
    ensures
        d < 10 ==> hex(d) == seq![('0' as u32 + d) as char],
        d >= 10 ==> hex(d) == seq![('a' as u32 + (d - 10)) as char],
        n > 0 ==> hex(16 * n + d) == hex(n) + hex(d),
{
    if n > 0 {
        assert((16 * n + d) / 16 == n);
        assert((16 * n + d) % 16 == d);
        assert(hex(n).push(hex_digit(d)) =~= hex(n) + seq![hex_digit(d)]);
    }
}

/// A text is there if it is not empty.
pub proof fn law_an_empty_text_is_none(text: Seq<char>)
    ensures
        text.len() > 0 ==> nonempty(Some(text)) == Some(text),
        text.len() == 0 ==> nonempty(Some(text)) is None,
        nonempty(None) is None,
{
}

/// A text occurs in another if and only if the other is that text with something before it and
/// something after it, or nothing.
pub proof fn law_a_text_occurs_between_others(
    before: Seq<char>,
    part: Seq<char>,
    after: Seq<char>,
    all: Seq<char>,
)
    ensures
        occurs(before + part + after, part),
        occurs(all, part) ==> exists|i: int|
            0 <= i <= all.len() - part.len() && all == #[trigger] all.take(i) + part + all.skip(
                i + part.len(),
            ),
{
    let whole = before + part + after;
    let n = before.len() as int;
    assert(whole.subrange(n, n + part.len()) =~= part);
    assert(occurs_at(whole, part, n));
    if occurs(all, part) {
        let i = choose|i: int| #[trigger] occurs_at(all, part, i);
        assert(all =~= all.take(i) + part + all.skip(i + part.len()));
    }
}

/// Of ASCII letters the capital ones become small, each its own, and all else stays as it is.
pub proof fn law_capital_letters_become_small(c: char)
    ensures
        'A' <= c <= 'Z' ==> 'a' <= ascii_lower(c) <= 'z' && ascii_lower(c) as u32 - 'a' as u32 == c
            as u32 - 'A' as u32,
        !('A' <= c <= 'Z') ==> ascii_lower(c) == c,
{
}

/// Of ASCII the space, the tab and the signs that end a line or a page are white space, and nothing
/// else is.
pub proof fn law_white_space_of_ascii(c: char)
    requires
        (c as u32) < 0x80,
    ensures
        is_ws(c) <==> c == ' ' || c == '\t' || c == '\n' || c == '\r' || c as u32 == 0x0b || c as u32
            == 0x0c,
{
}

} // verus!
