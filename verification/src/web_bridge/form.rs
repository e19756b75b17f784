//! What browsers send: form fields, query strings and byte ranges.
use vstd::prelude::*;
use vstd::string::*;

use crate::text::{
    chars_of, decimal, first_index, from_utf8_lossy, group_views, index_from, parse_number,
    parsed_upto, same, split_char, split_on, string_of, strip_prefix, trim, trimmed, utf8_lossy,
    views,
};

verus! {

broadcast use group_views;

/// The value of a hexadecimal digit, in either case.
pub open spec fn hex_value(b: u8) -> Option<u8> {
    if 0x30 <= b <= 0x39 {
        Some((b - 0x30) as u8)
    } else if 0x41 <= b <= 0x46 {
        Some((b - 0x41 + 10) as u8)
    } else if 0x61 <= b <= 0x66 {
        Some((b - 0x61 + 10) as u8)
    } else {
        None
    }
}

/// The number that two bytes write in hexadecimal, where both are digits.
pub open spec fn hex_pair(hi: u8, lo: u8) -> Option<u8> {
    match (hex_value(hi), hex_value(lo)) {
        (Some(h), Some(l)) => Some((h * 16 + l) as u8),
        _ => None,
    }
}

/// Bytes of a form as they were meant: `+` is a space, `%` and a hexadecimal pair is the byte of
/// that value, and everything else, a stray `%` among it, is itself.
pub open spec fn decoded(b: Seq<u8>) -> Seq<u8>
    decreases b.len(),
{
    if b.len() == 0 {
        Seq::empty()
    } else if b[0] == 0x2b {
        seq![0x20u8] + decoded(b.skip(1))
    } else if b[0] == 0x25 && b.len() >= 3 && hex_pair(b[1], b[2]) is Some {
        seq![hex_pair(b[1], b[2])->0] + decoded(b.skip(3))
    } else {
        seq![b[0]] + decoded(b.skip(1))
    }
}

/// The text of bytes: what they encode where they are valid UTF-8.
pub open spec fn text_of(bytes: Seq<u8>) -> Seq<char> {
    if vstd::utf8::valid_utf8(bytes) {
        vstd::utf8::decode_utf8(bytes)
    } else {
        utf8_lossy(bytes)
    }
}

/// A form value as it was meant.
pub open spec fn percent_decoded(s: Seq<char>) -> Seq<char> {
    text_of(decoded(vstd::utf8::encode_utf8(s)))
}

fn hex_digit_value(b: u8) -> (r: Option<u8>)
    ensures
        r == hex_value(b),
        r is Some ==> r->0 < 16,
{
    if 0x30 <= b && b <= 0x39 {
        Some(b - 0x30)
    } else if 0x41 <= b && b <= 0x46 {
        Some(b - 0x41 + 10)
    } else if 0x61 <= b && b <= 0x66 {
        Some(b - 0x61 + 10)
    } else {
        None
    }
}

fn hex_pair_value(hi: u8, lo: u8) -> (r: Option<u8>)
    ensures
        r == hex_pair(hi, lo),
{
    match (hex_digit_value(hi), hex_digit_value(lo)) {
        (Some(h), Some(l)) => Some(h * 16 + l),
        _ => None,
    }
}

/// Undoes the encoding of a form value.
pub fn percent_decode(input: &str) -> (r: String)
    ensures
        r@ == percent_decoded(input@),
{
    let bytes = input.as_bytes();
    let total: usize = bytes.len();
    let mut out: Vec<u8> = Vec::new();
    let mut i: usize = 0;
    assert(bytes@.skip(0) =~= bytes@);
    assert(out@ + decoded(bytes@) =~= decoded(bytes@));
    while i < total
        invariant
            i <= total == bytes@.len(),
            out@ + decoded(bytes@.skip(i as int)) == decoded(bytes@),
        decreases total - i,
    {
        let ghost rest = bytes@.skip(i as int);
        let ghost before = out@;
        assert(rest.skip(1) =~= bytes@.skip(i as int + 1));
        let b = bytes[i];
        let mut step: usize = 1;
        if b == 0x2b {
            out.push(0x20);
        } else if b == 0x25 && total - i >= 3 {
            match hex_pair_value(bytes[i + 1], bytes[i + 2]) {
                Some(byte) => {
                    assert(rest.skip(3) =~= bytes@.skip(i as int + 3));
                    out.push(byte);
                    step = 3;
                },
                None => {
                    out.push(b);
                },
            }
        } else {
            out.push(b);
        }
        i += step;
        assert(out@ + decoded(bytes@.skip(i as int)) =~= before + decoded(rest));
    }
    assert(out@ + decoded(bytes@.skip(i as int)) =~= out@);
    from_utf8_lossy(&out)
}

/// Whether a byte stands for itself in a URL.
pub open spec fn unreserved(b: u8) -> bool {
    ||| 0x41 <= b <= 0x5a
    ||| 0x61 <= b <= 0x7a
    ||| 0x30 <= b <= 0x39
    ||| b == 0x2d
    ||| b == 0x5f
    ||| b == 0x2e
    ||| b == 0x7e
}

/// A hexadecimal digit in upper case.
pub open spec fn upper_hex(d: u8) -> char {
    if d < 10 {
        (0x30 + d) as char
    } else {
        (0x41 + d - 10) as char
    }
}

/// What stands for a byte in a URL.
pub open spec fn encoded_byte(b: u8) -> Seq<char> {
    if unreserved(b) {
        seq![b as char]
    } else {
        seq!['%', upper_hex(b / 16), upper_hex(b % 16)]
    }
}

/// What stands for bytes in a URL.
pub open spec fn encoded_bytes(b: Seq<u8>) -> Seq<char>
    decreases b.len(),
{
    if b.len() == 0 {
        Seq::empty()
    } else {
        encoded_byte(b[0]) + encoded_bytes(b.skip(1))
    }
}

/// A text as it stands in a URL.
pub open spec fn percent_encoded(s: Seq<char>) -> Seq<char> {
    encoded_bytes(vstd::utf8::encode_utf8(s))
}

fn to_upper_hex(d: u8) -> (c: char)
    requires
        d < 16,
    ensures
        c == upper_hex(d),
{
    if d < 10 {
        (0x30u8 + d) as char
    } else {
        (0x41u8 + d - 10) as char
    }
}

/// Writes a query value as a URL carries it.
pub fn percent_encode(input: &str) -> (r: String)
    ensures
        r@ == percent_encoded(input@),
{
    let bytes = input.as_bytes();
    let mut out = String::new();
    let mut i: usize = 0;
    assert(bytes@.skip(0) =~= bytes@);
    assert(out@ + encoded_bytes(bytes@) =~= encoded_bytes(bytes@));
    while i < bytes.len()
        invariant
            i <= bytes@.len(),
            out@ + encoded_bytes(bytes@.skip(i as int)) == encoded_bytes(bytes@),
        decreases bytes@.len() - i,
    {
        let ghost rest = bytes@.skip(i as int);
        let ghost before = out@;
        assert(rest.skip(1) =~= bytes@.skip(i as int + 1));
        let b = bytes[i];
        if (0x41 <= b && b <= 0x5a) || (0x61 <= b && b <= 0x7a) || (0x30 <= b && b <= 0x39) || b
            == 0x2d || b == 0x5f || b == 0x2e || b == 0x7e {
            out.push(b as char);
        } else {
            out.push('%');
            out.push(to_upper_hex(b / 16));
            out.push(to_upper_hex(b % 16));
        }
        assert(out@ =~= before + encoded_byte(b));
        assert(out@ + encoded_bytes(rest.skip(1)) =~= before + encoded_bytes(rest));
        i += 1;
    }
    assert(out@ + encoded_bytes(bytes@.skip(i as int)) =~= out@);
    out
}

/// A field of a form, from its `key=value` text; one with no `=` has an empty value, and one with
/// no key is none.
pub open spec fn field_in(pair: Seq<char>) -> Option<(Seq<char>, Seq<char>)> {
    let k = first_index(pair, '=') as int;
    let key = percent_decoded(pair.take(k));
    let value = if k < pair.len() {
        percent_decoded(pair.skip(k + 1))
    } else {
        percent_decoded(Seq::empty())
    };
    if key.len() == 0 {
        None
    } else {
        Some((key, value))
    }
}

/// The fields of a form, from its `key=value` texts.
pub open spec fn fields_in(pairs: Seq<Seq<char>>) -> Seq<(Seq<char>, Seq<char>)>
    decreases pairs.len(),
{
    if pairs.len() == 0 {
        Seq::empty()
    } else {
        let before = fields_in(pairs.drop_last());
        match field_in(pairs.last()) {
            Some(f) => before.push(f),
            None => before,
        }
    }
}

/// The fields of a form body, or of a query string.
pub open spec fn form_of(body: Seq<char>) -> Seq<(Seq<char>, Seq<char>)> {
    fields_in(split_on(body, '&'))
}

/// The value of a field: of several of one name, the last.
pub open spec fn value_of(fields: Seq<(Seq<char>, Seq<char>)>, key: Seq<char>) -> Option<Seq<char>>
    decreases fields.len(),
{
    if fields.len() == 0 {
        None
    } else if fields.last().0 == key {
        Some(fields.last().1)
    } else {
        value_of(fields.drop_last(), key)
    }
}

/// The value of a field, or an empty text.
pub open spec fn value_or_empty(fields: Seq<(Seq<char>, Seq<char>)>, key: Seq<char>) -> Seq<char> {
    match value_of(fields, key) {
        Some(v) => v,
        None => Seq::empty(),
    }
}

/// The fields of a form.
pub struct Form {
    fields: Vec<(String, String)>,
}

impl View for Form {
    type V = Seq<(Seq<char>, Seq<char>)>;

    closed spec fn view(&self) -> Seq<(Seq<char>, Seq<char>)> {
        views(self.fields@)
    }
}

fn parse_field(pair: &str) -> (r: Option<(String, String)>)
    ensures
        match r {
            Some(f) => field_in(pair@) == Some(f@),
            None => field_in(pair@) is None,
        },
{
    let v = chars_of(pair);
    let k = index_from(&v, 0, '=');
    assert(v@.skip(0) =~= v@);
    let key = percent_decode(string_of(&v, 0, k).as_str());
    assert(v@.subrange(0, k as int) =~= pair@.take(k as int));
    let value = if k < v.len() {
        assert(v@.subrange(k as int + 1, v@.len() as int) =~= pair@.skip(k as int + 1));
        percent_decode(string_of(&v, k + 1, v.len()).as_str())
    } else {
        let none = String::new();
        assert(none@ =~= Seq::<char>::empty());
        percent_decode(none.as_str())
    };
    if key.as_str().is_empty() {
        None
    } else {
        Some((key, value))
    }
}

/// Reads a form body, or a query string.
pub fn parse_form(body: &str) -> (form: Form)
    ensures
        form@ == form_of(body@),
{
    let pairs = split_char(body, '&');
    let ghost all = views(pairs@);
    let mut fields: Vec<(String, String)> = Vec::new();
    let mut i: usize = 0;
    assert(all.take(0) =~= Seq::<Seq<char>>::empty());
    assert(views(fields@) =~= fields_in(all.take(0)));
    while i < pairs.len()
        invariant
            i <= pairs@.len(),
            all == views(pairs@),
            views(fields@) == fields_in(all.take(i as int)),
        decreases pairs@.len() - i,
    {
        assert(all.take(i as int + 1).drop_last() =~= all.take(i as int));
        if let Some(field) = parse_field(pairs[i].as_str()) {
            fields.push(field);
        }
        i += 1;
    }
    assert(all.take(i as int) =~= all);
    Form { fields }
}

impl Form {
    /// The value of a field.
    pub fn get(&self, key: &str) -> (r: Option<&str>)
        ensures
            match r {
                Some(v) => value_of(self@, key@) == Some(v@),
                None => value_of(self@, key@) is None,
            },
    {
        let ghost all = self@;
        let mut n: usize = self.fields.len();
        assert(all.take(n as int) =~= all);
        while n > 0
            invariant
                n <= self.fields@.len(),
                all == views(self.fields@),
                value_of(all, key@) == value_of(all.take(n as int), key@),
            decreases n,
        {
            assert(all.take(n as int).drop_last() =~= all.take(n as int - 1));
            let field = &self.fields[n - 1];
            assert(all.take(n as int).last() == field@);
            if same(field.0.as_str(), key) {
                return Some(field.1.as_str());
            }
            n -= 1;
        }
        None
    }

    /// The value of a field, or an empty text.
    pub fn get_or_empty(&self, key: &str) -> (r: String)
        ensures
            r@ == value_or_empty(self@, key@),
    {
        match self.get(key) {
            Some(v) => v.to_owned(),
            None => {
                let none = String::new();
                assert(none@ =~= Seq::<char>::empty());
                none
            },
        }
    }

    /// Whether the form has a field.
    pub fn has_field(&self, key: &str) -> (r: bool)
        ensures
            r == (value_of(self@, key@) is Some),
    {
        self.get(key).is_some()
    }
}

/// What a text starts with, taken off.
pub open spec fn after_prefix(s: Seq<char>, prefix: Seq<char>) -> Option<Seq<char>> {
    if prefix.is_prefix_of(s) {
        Some(s.skip(prefix.len() as int))
    } else {
        None
    }
}

/// The bytes that a range without the `bytes=` asks for, of a file of `total` bytes: from the
/// first to the last, both counted.
pub open spec fn range_in(spec: Seq<char>, total: nat) -> Option<(nat, nat)> {
    let k = first_index(spec, '-') as int;
    let start = spec.take(k);
    let end = trimmed(spec.skip(k + 1));
    if first_index(spec, ',') < spec.len() || k >= spec.len() {
        None
    } else if start.len() == 0 {
        match parsed_upto(end, usize::MAX as nat) {
            Some(n) => if n == 0 {
                None
            } else {
                Some(
                    (
                        if n < total {
                            (total - n) as nat
                        } else {
                            0
                        },
                        (total - 1) as nat,
                    ),
                )
            },
            None => None,
        }
    } else {
        match parsed_upto(trimmed(start), usize::MAX as nat) {
            Some(first) => if first >= total {
                None
            } else if end.len() == 0 {
                Some((first, (total - 1) as nat))
            } else {
                match parsed_upto(end, usize::MAX as nat) {
                    Some(last) => if last < first {
                        None
                    } else {
                        Some(
                            (
                                first,
                                if last < total {
                                    last
                                } else {
                                    (total - 1) as nat
                                },
                            ),
                        )
                    },
                    None => None,
                }
            },
            None => None,
        }
    }
}

/// The bytes that a `Range` header asks for, of a file of `total` bytes; none where it asks for
/// no single run of bytes that the file has.
pub open spec fn range_of(header: Seq<char>, total: nat) -> Option<(nat, nat)> {
    match after_prefix(trimmed(header), "bytes="@) {
        Some(spec) => if total == 0 {
            None
        } else {
            range_in(spec, total)
        },
        None => None,
    }
}

/// Reads a `Range` header (`bytes=start-end` with either end optional, or `bytes=-suffix`).
pub fn parse_byte_range(header: &str, total: usize) -> (r: Option<(usize, usize)>)
    ensures
        match r {
            Some((start, end)) => range_of(header@, total as nat) == Some((start as nat, end as nat)),
            None => range_of(header@, total as nat) is None,
        },
        r matches Some((start, end)) ==> start <= end < total,
{
    if total == 0 {
        return None;
    }
    let spec = match strip_prefix(trim(header), "bytes=") {
        Some(spec) => spec,
        None => return None,
    };
    let v = chars_of(spec);
    assert(v@.skip(0) =~= v@);
    if index_from(&v, 0, ',') < v.len() {
        return None;
    }
    let k = index_from(&v, 0, '-');
    if k >= v.len() {
        return None;
    }
    let start = string_of(&v, 0, k);
    let after = string_of(&v, k + 1, v.len());
    assert(start@ =~= spec@.take(k as int));
    assert(after@ =~= spec@.skip(k as int + 1));
    let end = trim(after.as_str());
    let max: u64 = usize::MAX as u64;
    if start.as_str().is_empty() {
        match parse_number(end, max) {
            Some(n) => {
                if n == 0 {
                    None
                } else if n < total as u64 {
                    Some((total - n as usize, total - 1))
                } else {
                    Some((0, total - 1))
                }
            },
            None => None,
        }
    } else {
        match parse_number(trim(start.as_str()), max) {
            Some(first) => {
                if first >= total as u64 {
                    None
                } else if end.is_empty() {
                    Some((first as usize, total - 1))
                } else {
                    match parse_number(end, max) {
                        Some(last) => {
                            if last < first {
                                None
                            } else if last < total as u64 {
                                Some((first as usize, last as usize))
                            } else {
                                Some((first as usize, total - 1))
                            }
                        },
                        None => None,
                    }
                }
            },
            None => None,
        }
    }
}

/// What is written into a URL reads back as it was.
pub proof fn law_percent_encoding_reads_back(s: Seq<char>)
    ensures
        percent_decoded(percent_encoded(s)) == s,
{
    let b = vstd::utf8::encode_utf8(s);
    lemma_encoded_reads_back(b);
    vstd::utf8::encode_utf8_valid_utf8(s);
    vstd::utf8::encode_utf8_decode_utf8(s);
}

proof fn lemma_encoded_reads_back(b: Seq<u8>)
    ensures
        decoded(vstd::utf8::encode_utf8(encoded_bytes(b))) == b,
    decreases b.len(),
{
    if b.len() == 0 {
        assert(vstd::utf8::encode_utf8(encoded_bytes(b)) =~= Seq::<u8>::empty());
    } else {
        let rest = encoded_bytes(b.skip(1));
        let tail = vstd::utf8::encode_utf8(rest);
        lemma_encoded_reads_back(b.skip(1));
        let x = b[0];
        let head = encoded_byte(x);
        let all = head + rest;
        assert(b =~= seq![x] + b.skip(1));
        if unreserved(x) {
            lemma_ascii_encodes(x, rest);
            assert(all =~= seq![x as char] + rest);
            assert((seq![x] + tail).skip(1) =~= tail);
        } else {
            let h = (x / 16) as u8;
            let l = (x % 16) as u8;
            let hc = upper_hex(h) as u8;
            let lc = upper_hex(l) as u8;
            assert(hc as char == upper_hex(h) && lc as char == upper_hex(l));
            lemma_ascii_encodes(lc, rest);
            lemma_ascii_encodes(hc, seq![lc as char] + rest);
            lemma_ascii_encodes(0x25u8, seq![hc as char] + (seq![lc as char] + rest));
            assert('%' as u32 == 0x25);
            assert(0x25u8 as char == '%');
            assert(all =~= seq!['%'] + (seq![hc as char] + (seq![lc as char] + rest)));
            let e = seq![0x25u8] + (seq![hc] + (seq![lc] + tail));
            assert(vstd::utf8::encode_utf8(all) == e);
            assert(e[0] == 0x25 && e[1] == hc && e[2] == lc);
            assert(hex_value(hc) == Some(h));
            assert(hex_value(lc) == Some(l));
            assert(e.skip(3) =~= tail);
        }
    }
}

proof fn lemma_ascii_encodes(c: u8, rest: Seq<char>)
    requires
        c < 0x80,
    ensures
        vstd::utf8::encode_utf8(seq![c as char] + rest) == seq![c] + vstd::utf8::encode_utf8(rest),
{
    let all = seq![c as char] + rest;
    assert(all.drop_first() =~= rest);
    let v = c as u32;
    assert((c as char) as u32 == v);
    assert(vstd::utf8::leading_byte_width_1(v) == c) by {
        assert(v < 0x80 ==> ((v & 0x7F) as u8) as u32 == v) by (bit_vector);
    }
}

/// The fields of two runs of pairs are those of the one and those of the other.
pub proof fn law_fields_add_up(a: Seq<Seq<char>>, b: Seq<Seq<char>>)
    ensures
        fields_in(a + b) == fields_in(a) + fields_in(b),
    decreases b.len(),
{
    if b.len() == 0 {
        assert(a + b =~= a);
        assert(fields_in(a) + fields_in(b) =~= fields_in(a));
    } else {
        law_fields_add_up(a, b.drop_last());
        assert((a + b).drop_last() =~= a + b.drop_last());
        assert((a + b).last() == b.last());
        assert(fields_in(a + b) =~= fields_in(a) + fields_in(b));
    }
}

/// An ampersand parts the fields of a form.
pub proof fn law_ampersands_part_the_fields(a: Seq<char>, b: Seq<char>)
    requires
        forall|k: int| 0 <= k < a.len() ==> #[trigger] a[k] != '&',
    ensures
        form_of(a.push('&') + b) == form_of(a) + form_of(b),
{
    crate::text::law_a_separator_parts_a_text(a, '&', b);
    law_fields_add_up(seq![a], split_on(b, '&'));
}

proof fn lemma_encoded_is_plain(b: Seq<u8>)
    ensures
        forall|k: int|
            0 <= k < encoded_bytes(b).len() ==> #[trigger] encoded_bytes(b)[k] != '&'
                && encoded_bytes(b)[k] != '=' && encoded_bytes(b)[k] != '?' && encoded_bytes(b)[k]
                != '+',
    decreases b.len(),
{
    if b.len() > 0 {
        lemma_encoded_is_plain(b.skip(1));
        let head = encoded_byte(b[0]);
        let rest = encoded_bytes(b.skip(1));
        let all = encoded_bytes(b);
        assert(all == head + rest);
        assert forall|k: int| 0 <= k < all.len() implies #[trigger] all[k] != '&' && all[k] != '='
            && all[k] != '?' && all[k] != '+' by {
            if k < head.len() {
                assert(all[k] == head[k]);
            } else {
                assert(all[k] == rest[k - head.len()]);
            }
        }
    }
}

/// What is written into a URL holds none of the signs that part its fields.
pub proof fn law_encoded_values_hold_no_separators(s: Seq<char>)
    ensures
        forall|k: int|
            0 <= k < percent_encoded(s).len() ==> #[trigger] percent_encoded(s)[k] != '&'
                && percent_encoded(s)[k] != '=' && percent_encoded(s)[k] != '?'
                && percent_encoded(s)[k] != '+',
{
    lemma_encoded_is_plain(vstd::utf8::encode_utf8(s));
}

/// Whether a text is made of letters, digits, hyphens, underscores, points and tildes alone.
pub open spec fn is_plain(s: Seq<char>) -> bool {
    forall|i: int|
        0 <= i < s.len() ==> (#[trigger] s[i] as u32) < 0x80 && ('A' <= s[i] <= 'Z' || 'a' <= s[i]
            <= 'z' || '0' <= s[i] <= '9' || s[i] == '-' || s[i] == '_' || s[i] == '.' || s[i]
            == '~')
}

/// A plain text is written into a URL as it is, and reads as it is.
pub proof fn law_plain_texts_stay_as_they_are(s: Seq<char>)
    requires
        is_plain(s),
    ensures
        percent_encoded(s) == s,
        percent_decoded(s) == s,
    decreases s.len(),
{
    if s.len() == 0 {
        assert(vstd::utf8::encode_utf8(s) =~= Seq::<u8>::empty());
        assert(percent_encoded(s) =~= s);
    } else {
        let rest = s.skip(1);
        assert forall|i: int| 0 <= i < rest.len() implies (#[trigger] rest[i] as u32) < 0x80 && (
        'A' <= rest[i] <= 'Z' || 'a' <= rest[i] <= 'z' || '0' <= rest[i] <= '9' || rest[i] == '-'
            || rest[i] == '_' || rest[i] == '.' || rest[i] == '~') by {
            assert(rest[i] == s[i + 1]);
        }
        law_plain_texts_stay_as_they_are(rest);
        let c = s[0];
        let b = c as u8;
        assert(b as char == c);
        lemma_ascii_encodes(b, rest);
        assert(s =~= seq![b as char] + rest);
        let bytes = vstd::utf8::encode_utf8(s);
        assert(bytes[0] == b);
        assert(bytes.skip(1) =~= vstd::utf8::encode_utf8(rest));
        assert(unreserved(b));
        assert(percent_encoded(s) =~= s);
    }
    law_percent_encoding_reads_back(s);
}

/// A field that is written into a form is read from it: its name and its value, whatever they hold.
pub proof fn law_a_field_reads_back(key: Seq<char>, value: Seq<char>)
    requires
        key.len() > 0,
    ensures
        form_of(percent_encoded(key).push('=') + percent_encoded(value)) == seq![(key, value)],
{
    let k = percent_encoded(key);
    let v = percent_encoded(value);
    let pair = k.push('=') + v;
    law_encoded_values_hold_no_separators(key);
    law_encoded_values_hold_no_separators(value);
    law_percent_encoding_reads_back(key);
    law_percent_encoding_reads_back(value);
    assert forall|i: int| 0 <= i < pair.len() implies #[trigger] pair[i] != '&' by {
        if i < k.len() {
            assert(pair[i] == k[i]);
        } else if i > k.len() {
            assert(pair[i] == v[i - k.len() - 1]);
        }
    }
    crate::text::law_a_separator_parts_a_text(pair, '&', Seq::empty());
    assert forall|i: int| 0 <= i < k.len() implies pair[i] != '=' by {
        assert(pair[i] == k[i]);
    }
    crate::text::lemma_first_index(pair, '=', k.len() as int);
    assert(pair.take(k.len() as int) =~= k);
    assert(pair.skip(k.len() as int + 1) =~= v);
    assert(field_in(pair) == Some((key, value)));
    let one = seq![pair];
    assert(one.drop_last() =~= Seq::<Seq<char>>::empty());
    assert(fields_in(one.drop_last()) =~= Seq::<(Seq<char>, Seq<char>)>::empty());
    assert(one.last() == pair);
    assert(fields_in(one) =~= seq![(key, value)]);
}

/// Of several fields of one name the last counts, and a name that no field has, has no value.
pub proof fn law_the_last_field_of_a_name_counts(
    a: Seq<(Seq<char>, Seq<char>)>,
    b: Seq<(Seq<char>, Seq<char>)>,
    key: Seq<char>,
    value: Seq<char>,
)
    requires
        forall|i: int| 0 <= i < b.len() ==> (#[trigger] b[i]).0 != key,
    ensures
        value_of(a.push((key, value)) + b, key) == Some(value),
        value_of(b, key) is None,
        value_of(a + b, key) == value_of(a, key),
    decreases b.len(),
{
    let with = a.push((key, value));
    if b.len() == 0 {
        assert(with + b =~= with);
        assert(with.last() == (key, value));
        assert(a + b =~= a);
    } else {
        let d = b.drop_last();
        assert forall|i: int| 0 <= i < d.len() implies (#[trigger] d[i]).0 != key by {
            assert(d[i] == b[i]);
        }
        law_the_last_field_of_a_name_counts(a, d, key, value);
        assert((with + b).drop_last() =~= with + d);
        assert((with + b).last() == b.last());
        assert((a + b).drop_last() =~= a + d);
        assert((a + b).last() == b.last());
        assert(b.last() == b[b.len() - 1]);
    }
}

proof fn lemma_range_header(first: nat, last: nat)
    ensures
        ({
            let spec = decimal(first).push('-') + decimal(last);
            after_prefix(trimmed("bytes="@ + spec), "bytes="@) == Some(spec)
        }),
{
    let b = decimal(last);
    let spec = decimal(first).push('-') + b;
    let header = "bytes="@ + spec;
    reveal_strlit("bytes=");
    crate::text::law_decimal_is_plain_text(last);
    let none = Seq::<char>::empty();
    assert(header[0] == 'b');
    assert(header.last() == b[b.len() - 1]);
    crate::text::law_white_space_around_is_cut(none, header, none);
    assert(none + header + none =~= header);
    assert("bytes="@.is_prefix_of(header));
    assert(header.skip(6) =~= spec);
}

proof fn lemma_range_parts(first: nat, last: nat)
    ensures
        ({
            let (a, b) = (decimal(first), decimal(last));
            let spec = a.push('-') + b;
            &&& first_index(spec, '-') == a.len()
            &&& first_index(spec, ',') == spec.len()
            &&& spec.take(a.len() as int) == a
            &&& spec.skip(a.len() as int + 1) == b
            &&& a.len() > 0 && b.len() > 0
        }),
{
    let (a, b) = (decimal(first), decimal(last));
    let spec = a.push('-') + b;
    crate::text::law_decimal_is_plain_text(first);
    crate::text::law_decimal_is_plain_text(last);
    assert forall|k: int| 0 <= k < a.len() implies spec[k] != '-' by {
        assert(spec[k] == a[k]);
    }
    crate::text::lemma_first_index(spec, '-', a.len() as int);
    assert forall|k: int| 0 <= k < spec.len() implies spec[k] != ',' by {
        if k < a.len() {
            assert(spec[k] == a[k]);
        } else if k > a.len() {
            assert(spec[k] == b[k - a.len() - 1]);
        }
    }
    crate::text::lemma_first_index(spec, ',', spec.len() as int);
    assert(spec.take(a.len() as int) =~= a);
    assert(spec.skip(a.len() as int + 1) =~= b);
}

/// A range `bytes={first}-{last}` asks for these bytes, both counted, as far as there are any.
pub proof fn law_ranges_are_what_they_say(first: nat, last: nat, total: nat)
    requires
        first <= last <= usize::MAX,
    ensures
        range_of("bytes="@ + (decimal(first).push('-') + decimal(last)), total) == (if first
            < total {
            Some(
                (
                    first,
                    if last < total {
                        last
                    } else {
                        (total - 1) as nat
                    },
                ),
            )
        } else {
            None
        }),
{
    lemma_range_header(first, last);
    lemma_range_parts(first, last);
    crate::text::law_decimal_reads_back(first);
    crate::text::law_decimal_reads_back(last);
    crate::text::law_decimal_is_plain_text(first);
    crate::text::law_decimal_is_plain_text(last);
}

/// A range `bytes={first}-` asks for all from there on, and `bytes=-{count}` for the last bytes.
pub proof fn law_open_ranges_are_what_they_say(n: nat, total: nat)
    requires
        n <= usize::MAX,
    ensures
        n < total ==> range_in(decimal(n).push('-'), total) == Some((n, (total - 1) as nat)),
        n >= total ==> range_in(decimal(n).push('-'), total) is None,
        0 < n <= total ==> range_in(seq!['-'] + decimal(n), total) == Some(
            ((total - n) as nat, (total - 1) as nat),
        ),
        n > total > 0 ==> range_in(seq!['-'] + decimal(n), total) == Some(
            (0nat, (total - 1) as nat),
        ),
{
    let d = decimal(n);
    let none = Seq::<char>::empty();
    crate::text::law_decimal_reads_back(n);
    crate::text::law_decimal_is_plain_text(n);
    let from = d.push('-');
    assert forall|k: int| 0 <= k < d.len() implies from[k] != '-' by {
        assert(from[k] == d[k]);
    }
    crate::text::lemma_first_index(from, '-', d.len() as int);
    assert forall|k: int| 0 <= k < from.len() implies from[k] != ',' by {
        if k < d.len() {
            assert(from[k] == d[k]);
        }
    }
    crate::text::lemma_first_index(from, ',', from.len() as int);
    assert(from.take(d.len() as int) =~= d);
    assert(from.skip(d.len() as int + 1) =~= none);
    assert(trimmed(none) =~= none);
    let upto = seq!['-'] + d;
    crate::text::lemma_first_index(upto, '-', 0);
    assert forall|k: int| 0 <= k < upto.len() implies upto[k] != ',' by {
        if k > 0 {
            assert(upto[k] == d[k - 1]);
        }
    }
    crate::text::lemma_first_index(upto, ',', upto.len() as int);
    assert(upto.take(0) =~= none);
    assert(upto.skip(1) =~= d);
}

} // verus!
