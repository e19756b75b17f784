//! Names of files: what a virtual path is called on disk, and what a partial download is.
use vstd::prelude::*;
use vstd::string::*;
use vstd::utf8::*;
use crate::text::{
    after_last_index, byte_len, chars_of, cut, cut_at, decimal, hex_fixed, last_index,
    lemma_byte_len_add, lemma_cut_fits, lemma_last_index_is, push_decimal, push_hex_fixed, string_of,
    utf8_len,
};

verus! {

/// Cap on the name of a downloaded file in bytes; longer ones a file system may refuse.
pub const MAX_BASENAME_BYTES: usize = 255;

/// One step of the 64-bit FNV-1a hash.
pub open spec fn fnv_step(hash: u64, byte: u8) -> u64 {
    (((hash ^ (byte as u64)) as int * 0x100000001b3) % 0x1_0000_0000_0000_0000) as u64
}

/// The 64-bit FNV-1a hash of `bytes`, going on from `hash`.
pub open spec fn fnv(hash: u64, bytes: Seq<u8>) -> u64
    decreases bytes.len(),
{
    if bytes.len() == 0 {
        hash
    } else {
        fnv_step(fnv(hash, bytes.drop_last()), bytes.last())
    }
}

/// The key of a download: the hash of the user's name, a zero byte, and the virtual path.
pub open spec fn key_of(username: Seq<char>, virtual_path: Seq<char>) -> u64 {
    fnv(
        fnv(fnv(0xcbf2_9ce4_8422_2325, encode_utf8(username)), seq![0u8]),
        encode_utf8(virtual_path),
    )
}

fn hash_byte(hash: u64, byte: u8) -> (r: u64)
    ensures
        r == fnv_step(hash, byte),
{
    let mixed: u64 = hash ^ (byte as u64);
    mixed.wrapping_mul(0x100000001b3)
}

fn hash_bytes(hash: u64, bytes: &[u8]) -> (r: u64)
    ensures
        r == fnv(hash, bytes@),
{
    let mut h: u64 = hash;
    let mut i: usize = 0;
    assert(bytes@.take(0) =~= Seq::empty());
    while i < bytes.len()
        invariant
            i <= bytes@.len(),
            h == fnv(hash, bytes@.take(i as int)),
        decreases bytes@.len() - i,
    {
        h = hash_byte(h, bytes[i]);
        assert(bytes@.take(i as int + 1).drop_last() =~= bytes@.take(i as int));
        i += 1;
    }
    assert(bytes@.take(i as int) =~= bytes@);
    h
}

/// A key for a download that is the same in every run, so that a partial file is found again.
pub fn stable_key(username: &str, virtual_path: &str) -> (r: u64)
    ensures
        r == key_of(username@, virtual_path@),
{
    let h = hash_bytes(0xcbf2_9ce4_8422_2325, username.as_bytes());
    let mid = hash_byte(h, 0);
    proof {
        assert(seq![0u8].drop_last() =~= Seq::<u8>::empty());
        assert(fnv(h, Seq::<u8>::empty()) == h);
        assert(fnv(h, seq![0u8]) == mid);
    }
    hash_bytes(mid, virtual_path.as_bytes())
}

/// What the partial file of a download is called.
pub open spec fn incomplete_name_of(
    username: Seq<char>,
    virtual_path: Seq<char>,
    basename: Seq<char>,
) -> Seq<char> {
    "INCOMPLETE-"@ + hex_fixed(key_of(username, virtual_path) as nat, 16) + "-"@ + basename
}

/// The name of a download's partial file: the same for every attempt at it, whatever token the
/// attempt has.
pub fn incomplete_name(username: &str, virtual_path: &str, basename: &str) -> (r: String)
    ensures
        r@ == incomplete_name_of(username@, virtual_path@, basename@),
{
    let key = stable_key(username, virtual_path);
    let mut out = "INCOMPLETE-".to_owned();
    push_hex_fixed(&mut out, key, 16);
    out.append("-");
    out.append(basename);
    out
}


pub open spec fn is_hex(c: char) -> bool {
    ||| '0' <= c <= '9'
    ||| 'a' <= c <= 'f'
    ||| 'A' <= c <= 'F'
}

/// Whether `name` is `INCOMPLETE-`, sixteen hexadecimal digits, `-`, and something more.
pub open spec fn is_incomplete_name(name: Seq<char>) -> bool {
    let rest = name.skip(11);
    &&& "INCOMPLETE-"@.is_prefix_of(name)
    &&& rest.len() > 17
    &&& rest[16] == '-'
    &&& forall|i: int| 0 <= i < 16 ==> is_hex(#[trigger] rest[i])
}

/// The basename behind the key in a partial file's name; `None` where the name is not one.
pub fn parse_incomplete_name(name: &str) -> (r: Option<String>)
    ensures
        match r {
            Some(base) => is_incomplete_name(name@) && base@ == name@.skip(28),
            None => !is_incomplete_name(name@),
        },
{
    proof {
        reveal_strlit("INCOMPLETE-");
    }
    if !crate::text::starts_with(name, "INCOMPLETE-") {
        return None;
    }
    let v = chars_of(name);
    let ghost rest = name@.skip(11);
    if v.len() <= 28 {
        return None;
    }
    assert(rest[16] == v@[27]);
    if v[27] != '-' {
        return None;
    }
    let mut i: usize = 0;
    while i < 16
        invariant
            i <= 16,
            v@ == name@,
            v@.len() > 28,
            rest == name@.skip(11),
            forall|j: int| 0 <= j < i ==> is_hex(#[trigger] rest[j]),
        decreases 16 - i,
    {
        let c = v[11 + i];
        assert(rest[i as int] == c);
        let hex = ('0' <= c && c <= '9') || ('a' <= c && c <= 'f') || ('A' <= c && c <= 'F');
        if !hex {
            assert(!is_hex(rest[i as int]));
            return None;
        }
        i += 1;
    }
    let n: usize = v.len();
    assert(v@.subrange(28, n as int) =~= name@.skip(28));
    Some(string_of(&v, 28, n))
}

proof fn lemma_hex_fixed(n: nat, width: nat)
    ensures
        hex_fixed(n, width).len() == width,
        forall|i: int| 0 <= i < width ==> is_hex(#[trigger] hex_fixed(n, width)[i]),
    decreases width,
{
    if width > 0 {
        lemma_hex_fixed(n / 16, (width - 1) as nat);
        let d = n % 16;
        assert(is_hex(crate::text::hex_digit(d)));
    }
}

/// The name of a partial file gives its basename back, whoever it was downloaded from.
pub proof fn law_incomplete_name_reads_back(
    username: Seq<char>,
    virtual_path: Seq<char>,
    basename: Seq<char>,
)
    requires
        basename.len() > 0,
    ensures
        is_incomplete_name(incomplete_name_of(username, virtual_path, basename)),
        incomplete_name_of(username, virtual_path, basename).skip(28) == basename,
{
    reveal_strlit("INCOMPLETE-");
    reveal_strlit("-");
    let key = key_of(username, virtual_path) as nat;
    lemma_hex_fixed(key, 16);
    let name = incomplete_name_of(username, virtual_path, basename);
    let rest = name.skip(11);
    assert(name.subrange(0, 11) =~= "INCOMPLETE-"@);
    assert forall|i: int| 0 <= i < 16 implies is_hex(#[trigger] rest[i]) by {
        assert(rest[i] == hex_fixed(key, 16)[i]);
    }
    assert(name.skip(28) =~= basename);
}

/// Two names of partial files that are equal stand for equal keys and equal basenames: where
/// the keys of two downloads differ, so do the names.
pub proof fn law_incomplete_names_differ_with_the_key(
    u1: Seq<char>,
    p1: Seq<char>,
    b1: Seq<char>,
    u2: Seq<char>,
    p2: Seq<char>,
    b2: Seq<char>,
)
    requires
        incomplete_name_of(u1, p1, b1) == incomplete_name_of(u2, p2, b2),
    ensures
        key_of(u1, p1) == key_of(u2, p2),
        b1 == b2,
{
    reveal_strlit("INCOMPLETE-");
    reveal_strlit("-");
    let k1 = key_of(u1, p1);
    let k2 = key_of(u2, p2);
    lemma_hex_fixed(k1 as nat, 16);
    lemma_hex_fixed(k2 as nat, 16);
    let n1 = incomplete_name_of(u1, p1, b1);
    let n2 = incomplete_name_of(u2, p2, b2);
    assert(n1.subrange(11, 27) =~= hex_fixed(k1 as nat, 16));
    assert(n2.subrange(11, 27) =~= hex_fixed(k2 as nat, 16));
    assert(n1.skip(28) =~= b1);
    assert(n2.skip(28) =~= b2);
    lemma_hex_injective(k1 as nat, k2 as nat, 16);
}

pub open spec fn pow16(width: nat) -> nat
    decreases width,
{
    if width == 0 {
        1
    } else {
        16 * pow16((width - 1) as nat)
    }
}

proof fn lemma_hex_injective(a: nat, b: nat, width: nat)
    requires
        hex_fixed(a, width) == hex_fixed(b, width),
    ensures
        a % pow16(width) == b % pow16(width),
        width == 16 && a < 0x1_0000_0000_0000_0000 && b < 0x1_0000_0000_0000_0000 ==> a == b,
    decreases width,
{
    if width > 0 {
        let w = (width - 1) as nat;
        assert(hex_fixed(a, width) == hex_fixed(a / 16, w).push(crate::text::hex_digit(a % 16)));
        assert(hex_fixed(b, width) == hex_fixed(b / 16, w).push(crate::text::hex_digit(b % 16)));
        assert(hex_fixed(a, width).last() == crate::text::hex_digit(a % 16));
        assert(hex_fixed(b, width).last() == crate::text::hex_digit(b % 16));
        lemma_hex_digit_injective(a % 16, b % 16);
        assert(hex_fixed(a, width).drop_last() =~= hex_fixed(a / 16, w));
        assert(hex_fixed(b, width).drop_last() =~= hex_fixed(b / 16, w));
        lemma_hex_injective(a / 16, b / 16, w);
        lemma_pow16_pos(w);
        vstd::arithmetic::div_mod::lemma_mod_breakdown(a as int, 16, pow16(w) as int);
        vstd::arithmetic::div_mod::lemma_mod_breakdown(b as int, 16, pow16(w) as int);
    } else {
        assert(a % 1 == 0 && b % 1 == 0);
    }
    if width == 16 {
        assert(pow16(16) == 0x1_0000_0000_0000_0000) by {
            reveal_with_fuel(pow16, 17);
        }
        if a < 0x1_0000_0000_0000_0000 && b < 0x1_0000_0000_0000_0000 {
            vstd::arithmetic::div_mod::lemma_small_mod(a, 0x1_0000_0000_0000_0000);
            vstd::arithmetic::div_mod::lemma_small_mod(b, 0x1_0000_0000_0000_0000);
        }
    }
}

proof fn lemma_hex_digit_injective(x: nat, y: nat)
    requires
        x < 16,
        y < 16,
        crate::text::hex_digit(x) == crate::text::hex_digit(y),
    ensures
        x == y,
{
    assert(x < 10 ==> crate::text::hex_digit(x) as int == 48 + x);
    assert(x >= 10 ==> crate::text::hex_digit(x) as int == 87 + x);
    assert(y < 10 ==> crate::text::hex_digit(y) as int == 48 + y);
    assert(y >= 10 ==> crate::text::hex_digit(y) as int == 87 + y);
}

proof fn lemma_pow16_pos(width: nat)
    ensures
        pow16(width) > 0,
    decreases width,
{
    if width > 0 {
        lemma_pow16_pos((width - 1) as nat);
    }
}


/// The last `\`-separated segment of a virtual path.
pub open spec fn last_segment(path: Seq<char>) -> Seq<char> {
    path.skip(last_index(path, '\\') + 1)
}

/// What a virtual path is called on disk: its last segment, cut to the limit. The extension is
/// kept where there is something before it and it fits.
pub open spec fn basename_on_disk(path: Seq<char>) -> Seq<char> {
    let raw = last_segment(path);
    let dot = last_index(raw, '.');
    let ext = raw.skip(dot);
    let max = MAX_BASENAME_BYTES as nat;
    if byte_len(raw) <= max {
        raw
    } else if dot > 0 && byte_len(ext) < max {
        cut(raw.take(dot), (max - byte_len(ext)) as nat) + ext
    } else {
        cut(raw, max)
    }
}

/// The name on disk of a downloaded virtual path.
pub fn download_basename(virtual_path: &str) -> (r: String)
    ensures
        r@ == basename_on_disk(virtual_path@),
{
    let all = chars_of(virtual_path);
    let start = after_last_index(&all, '\\');
    let n: usize = all.len();
    let raw = string_of(&all, start, n);
    assert(raw@ =~= last_segment(virtual_path@));
    if utf8_len(raw.as_str()) <= MAX_BASENAME_BYTES {
        return raw;
    }
    let v = chars_of(raw.as_str());
    let m: usize = v.len();
    let after_dot = after_last_index(&v, '.');
    if after_dot > 1 {
        let dot: usize = after_dot - 1;
        let ext = string_of(&v, dot, m);
        assert(ext@ =~= raw@.skip(dot as int));
        let ext_len = utf8_len(ext.as_str());
        if ext_len < MAX_BASENAME_BYTES {
            let k = cut_at(&v, dot, MAX_BASENAME_BYTES - ext_len);
            let mut out = string_of(&v, 0, k);
            assert(out@ =~= v@.take(k as int));
            out.append(ext.as_str());
            return out;
        }
    }
    let k = cut_at(&v, m, MAX_BASENAME_BYTES);
    let out = string_of(&v, 0, k);
    assert(v@.take(m as int) =~= raw@);
    assert(out@ =~= v@.take(k as int));
    out
}

/// A name on disk never exceeds the limit, and holds no path separator of the peer's.
pub proof fn law_basename_fits(path: Seq<char>, i: int)
    requires
        0 <= i < basename_on_disk(path).len(),
    ensures
        byte_len(basename_on_disk(path)) <= MAX_BASENAME_BYTES,
        basename_on_disk(path)[i] != '\\',
{
    let raw = last_segment(path);
    lemma_last_index_is(path, '\\');
    assert forall|j: int| 0 <= j < raw.len() implies raw[j] != '\\' by {
        assert(raw[j] == path[last_index(path, '\\') + 1 + j]);
    }
    let dot = last_index(raw, '.');
    lemma_last_index_is(raw, '.');
    let ext = raw.skip(dot);
    let max = MAX_BASENAME_BYTES as nat;
    if byte_len(raw) > max {
        if dot > 0 && byte_len(ext) < max {
            let left = (max - byte_len(ext)) as nat;
            lemma_cut_fits(raw.take(dot), left);
            lemma_byte_len_add(cut(raw.take(dot), left), ext);
            let k = cut(raw.take(dot), left).len() as int;
            if i >= k {
                assert(basename_on_disk(path)[i] == raw[dot + i - k]);
            } else {
                assert(basename_on_disk(path)[i] == raw[i]);
            }
        } else {
            lemma_cut_fits(raw, max);
            assert(basename_on_disk(path)[i] == raw[i]);
        }
    }
}

/// A name that is short enough is kept as it is, and of one that is not the extension stays.
pub proof fn law_basename_keeps_the_extension(path: Seq<char>)
    ensures
        ({
            let raw = last_segment(path);
            let ext = raw.skip(last_index(raw, '.'));
            &&& byte_len(raw) <= MAX_BASENAME_BYTES ==> basename_on_disk(path) == raw
            &&& last_index(raw, '.') > 0 && byte_len(ext) < MAX_BASENAME_BYTES
                ==> ext.is_suffix_of(basename_on_disk(path))
        }),
{
    let raw = last_segment(path);
    let dot = last_index(raw, '.');
    lemma_last_index_is(raw, '.');
    let ext = raw.skip(dot);
    let out = basename_on_disk(path);
    if dot > 0 && byte_len(ext) < MAX_BASENAME_BYTES {
        assert(out.subrange(out.len() - ext.len(), out.len() as int) =~= ext);
    }
}

/// The `counter`-th name to try for a download whose name is taken: ` (counter)` stands before
/// the extension.
pub open spec fn numbered(basename: Seq<char>, counter: nat) -> Seq<char> {
    let dot = last_index(basename, '.');
    if counter == 0 {
        basename
    } else if dot > 0 {
        basename.take(dot) + " ("@ + decimal(counter) + ")"@ + basename.skip(dot)
    } else {
        basename + " ("@ + decimal(counter) + ")"@ + Seq::<char>::empty()
    }
}

/// The name to try for a download after `counter` names were taken.
pub fn collision_name(basename: &str, counter: u64) -> (r: String)
    ensures
        r@ == numbered(basename@, counter as nat),
{
    if counter == 0 {
        return basename.to_owned();
    }
    let v = chars_of(basename);
    let n: usize = v.len();
    let after_dot = after_last_index(&v, '.');
    let split: usize = if after_dot > 1 {
        after_dot - 1
    } else {
        n
    };
    let mut out = string_of(&v, 0, split);
    assert(out@ =~= basename@.take(split as int));
    assert(split == n ==> out@ =~= basename@);
    out.append(" (");
    push_decimal(&mut out, counter);
    out.append(")");
    let ext = string_of(&v, split, n);
    assert(split < n ==> ext@ =~= basename@.skip(split as int));
    assert(split == n ==> ext@ =~= Seq::<char>::empty());
    out.append(ext.as_str());
    out
}

/// Different counters give different names, so trying them in turn comes to a free one.
pub proof fn law_numbered_names_differ(basename: Seq<char>, a: nat, b: nat)
    requires
        a != b,
        a > 0,
        b > 0,
    ensures
        numbered(basename, a) != numbered(basename, b),
{
    reveal_strlit(" (");
    reveal_strlit(")");
    let dot = last_index(basename, '.');
    lemma_last_index_is(basename, '.');
    let k = if dot > 0 {
        dot
    } else {
        basename.len() as int
    };
    let na = numbered(basename, a);
    let nb = numbered(basename, b);
    if na == nb {
        let la = decimal(a).len() as int;
        let lb = decimal(b).len() as int;
        assert(na.len() == basename.len() + 3 + la);
        assert(nb.len() == basename.len() + 3 + lb);
        assert(na.subrange(k + 2, k + 2 + la) =~= decimal(a));
        assert(nb.subrange(k + 2, k + 2 + lb) =~= decimal(b));
        crate::text::law_decimal_reads_back(a);
        crate::text::law_decimal_reads_back(b);
    }
}

/// Where a download goes on: behind what is on disk, or from the start where that is not less
/// than the whole.
pub open spec fn resume_at(existing: u64, size: u64) -> u64 {
    if existing < size {
        existing
    } else {
        0
    }
}

/// The offset to ask the uploader for, given how much of the file is on disk already.
pub fn resume_offset(existing: u64, size: u64) -> (r: u64)
    ensures
        r == resume_at(existing, size),
        r < size || r == 0,
{
    if existing < size {
        existing
    } else {
        0
    }
}

/// The last separator (of either kind) in a virtual path; -1 where there is none.
pub open spec fn last_separator(path: Seq<char>) -> int {
    let a = last_index(path, '\\');
    let b = last_index(path, '/');
    if a >= b {
        a
    } else {
        b
    }
}

/// The last segment of a virtual path, or the whole where that is empty.
pub open spec fn basename_of(path: Seq<char>) -> Seq<char> {
    let seg = path.skip(last_separator(path) + 1);
    if seg.len() == 0 {
        path
    } else {
        seg
    }
}

/// What stands before the last separator; empty where there is none.
pub open spec fn dirname_of(path: Seq<char>) -> Seq<char> {
    if last_separator(path) < 0 {
        Seq::empty()
    } else {
        path.take(last_separator(path))
    }
}

fn after_separator(v: &Vec<char>) -> (i: usize)
    ensures
        i == last_separator(v@) + 1,
        i <= v@.len(),
{
    let a = after_last_index(v, '\\');
    let b = after_last_index(v, '/');
    if a >= b {
        a
    } else {
        b
    }
}

/// The last segment of a path separated by backslashes or slashes.
pub fn basename(path: &str) -> (r: &str)
    ensures
        r@ == basename_of(path@),
{
    let v = chars_of(path);
    let i = after_separator(&v);
    let n: usize = v.len();
    if i == n {
        return path;
    }
    assert(path@.subrange(i as int, n as int) =~= path@.skip(i as int));
    path.substring_char(i, n)
}

/// The folder portion of a path separated by backslashes or slashes.
pub fn dirname(path: &str) -> (r: &str)
    ensures
        r@ == dirname_of(path@),
{
    let v = chars_of(path);
    let i = after_separator(&v);
    let end: usize = if i == 0 {
        0
    } else {
        i - 1
    };
    assert(path@.subrange(0, end as int) =~= dirname_of(path@));
    path.substring_char(0, end)
}

/// A path is its folder, a separator and its name, and no name holds a separator; a path without a
/// separator is its own name, in no folder.
pub proof fn law_a_path_is_its_folder_and_its_name(path: Seq<char>)
    requires
        path.len() > 0,
        path.last() != '\\' && path.last() != '/',
    ensures
        forall|k: int|
            0 <= k < basename_of(path).len() ==> #[trigger] basename_of(path)[k] != '\\'
                && basename_of(path)[k] != '/',
        basename_of(path) == path && dirname_of(path).len() == 0 || path == dirname_of(path).push(
            '\\',
        ) + basename_of(path) || path == dirname_of(path).push('/') + basename_of(path),
        (exists|k: int| 0 <= k < path.len() && (#[trigger] path[k] == '\\' || path[k] == '/'))
            ==> basename_of(path) != path,
{
    lemma_last_index_is(path, '\\');
    lemma_last_index_is(path, '/');
    let k = last_separator(path);
    let name = path.skip(k + 1);
    assert(name.len() > 0) by {
        if k == path.len() - 1 {
            assert(path[k] == path.last());
        }
    }
    assert(basename_of(path) == name);
    assert forall|i: int| 0 <= i < name.len() implies #[trigger] name[i] != '\\' && name[i]
        != '/' by {
        assert(name[i] == path[k + 1 + i]);
    }
    if k < 0 {
        assert(name =~= path);
    } else {
        assert(path =~= path.take(k).push(path[k]) + name);
        assert(name.len() < path.len());
    }
}

/// A download goes on where the part on disk ends, and begins anew where that is no part of it.
pub proof fn law_a_download_goes_on_where_it_ended(existing: u64, size: u64)
    ensures
        existing < size ==> resume_at(existing, size) == existing,
        existing >= size ==> resume_at(existing, size) == 0,
{
}

/// Bytes are hashed one after the other, so that it makes no difference where they are parted.
pub proof fn law_hashing_goes_on_where_it_stopped(hash: u64, a: Seq<u8>, b: Seq<u8>)
    ensures
        fnv(hash, a + b) == fnv(fnv(hash, a), b),
    decreases b.len(),
{
    if b.len() == 0 {
        assert(a + b =~= a);
    } else {
        law_hashing_goes_on_where_it_stopped(hash, a, b.drop_last());
        assert((a + b).drop_last() =~= a + b.drop_last());
        assert((a + b).last() == b.last());
    }
}

/// The key of a download is the hash of user and path in one, with a zero byte between them; a byte
/// more is mixed in and the hash multiplied.
pub proof fn law_the_key_is_of_user_and_path(
    username: Seq<char>,
    path: Seq<char>,
    hash: u64,
    byte: u8,
)
    ensures
        key_of(username, path) == fnv(
            0xcbf2_9ce4_8422_2325,
            encode_utf8(username) + seq![0u8] + encode_utf8(path),
        ),
        fnv(hash, seq![byte]) == ((hash ^ (byte as u64)) * 0x100000001b3) % 0x1_0000_0000_0000_0000,
        fnv(hash, Seq::empty()) == hash,
{
    let start: u64 = 0xcbf2_9ce4_8422_2325;
    let (u, p) = (encode_utf8(username), encode_utf8(path));
    law_hashing_goes_on_where_it_stopped(start, u, seq![0u8]);
    law_hashing_goes_on_where_it_stopped(start, u + seq![0u8], p);
    let one = seq![byte];
    assert(one.drop_last() =~= Seq::<u8>::empty());
    assert(one.last() == byte);
    assert(fnv(hash, one.drop_last()) == hash);
}

/// A file is called on disk what its last segment is called, where that is not too long.
pub proof fn law_a_file_keeps_its_name_on_disk(folder: Seq<char>, name: Seq<char>)
    requires
        forall|k: int| 0 <= k < name.len() ==> #[trigger] name[k] != '\\',
        byte_len(name) <= MAX_BASENAME_BYTES,
    ensures
        basename_on_disk(folder.push('\\') + name) == name,
        basename_on_disk(name) == name,
{
    let path = folder.push('\\') + name;
    let n = folder.len() as int;
    assert(path[n] == '\\');
    assert forall|k: int| n < k < path.len() implies path[k] != '\\' by {
        assert(path[k] == name[k - n - 1]);
    }
    crate::text::lemma_last_index(path, '\\', n);
    assert(path.skip(n + 1) =~= name);
    crate::text::lemma_last_index(name, '\\', -1);
    assert(name.skip(0) =~= name);
}

/// A name that is taken gets its number before the extension.
pub proof fn law_the_number_stands_before_the_extension(
    stem: Seq<char>,
    ext: Seq<char>,
    counter: nat,
)
    requires
        stem.len() > 0,
        counter > 0,
        forall|k: int| 0 <= k < ext.len() ==> #[trigger] ext[k] != '.',
    ensures
        numbered(stem.push('.') + ext, counter) == stem + " ("@ + decimal(counter) + ")"@ + (seq![
            '.',
        ] + ext),
        numbered(stem.push('.') + ext, 0) == stem.push('.') + ext,
{
    let name = stem.push('.') + ext;
    let d = stem.len() as int;
    assert(name[d] == '.');
    assert forall|k: int| d < k < name.len() implies name[k] != '.' by {
        assert(name[k] == ext[k - d - 1]);
    }
    crate::text::lemma_last_index(name, '.', d);
    assert(name.take(d) =~= stem);
    assert(name.skip(d) =~= seq!['.'] + ext);
}

} // verus!
