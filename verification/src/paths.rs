//! Names for files and folders that come from elsewhere.
use vstd::prelude::*;
use vstd::string::*;

use crate::text::{chars_of, is_whitespace, is_ws, string_of};

verus! {

/// Whether a character separates paths, or is not allowed in names on common file systems.
pub open spec fn is_forbidden(c: char) -> bool {
    c == '/' || c == '\\' || c == ':' || c == '*' || c == '?' || c == '"' || c == '<' || c == '>'
        || c == '|'
}

/// What stands for a character in a name: nothing for a control character, and an underscore for
/// a forbidden one.
pub open spec fn name_char(c: char) -> Seq<char> {
    if is_forbidden(c) {
        seq!['_']
    } else if (c as u32) < 0x20 {
        Seq::empty()
    } else {
        seq![c]
    }
}

/// A text with what stands for its characters in a name.
pub open spec fn name_chars(s: Seq<char>) -> Seq<char>
    decreases s.len(),
{
    if s.len() == 0 {
        Seq::empty()
    } else {
        name_chars(s.drop_last()) + name_char(s.last())
    }
}

/// Whether a character is taken off the ends of a name: white space and dots.
pub open spec fn is_edge(c: char) -> bool {
    is_ws(c) || c == '.'
}

/// A text without white space and dots before it.
pub open spec fn trim_left(s: Seq<char>) -> Seq<char>
    decreases s.len(),
{
    if s.len() > 0 && is_edge(s[0]) {
        trim_left(s.skip(1))
    } else {
        s
    }
}

/// A text without white space and dots behind it.
pub open spec fn trim_right(s: Seq<char>) -> Seq<char>
    decreases s.len(),
{
    if s.len() > 0 && is_edge(s.last()) {
        trim_right(s.drop_last())
    } else {
        s
    }
}

/// A text as the name of one file or folder; empty where nothing usable is left.
pub open spec fn component(s: Seq<char>) -> Seq<char> {
    trim_right(trim_left(name_chars(s)))
}

/// Makes a text the name of one file or folder: separators and characters that file systems do
/// not allow become underscores, control characters go, and so do white space and dots at either
/// end. Nothing usable leaves an empty text.
pub fn sanitize_path_component(raw: &str) -> (r: String)
    ensures
        r@ == component(raw@),
{
    let v = chars_of(raw);
    let mut out: Vec<char> = Vec::new();
    let mut i: usize = 0;
    assert(v@.take(0) =~= Seq::<char>::empty());
    assert(out@ =~= name_chars(v@.take(0)));
    while i < v.len()
        invariant
            i <= v@.len(),
            out@ == name_chars(v@.take(i as int)),
        decreases v@.len() - i,
    {
        let c = v[i];
        let ghost before = out@;
        assert(v@.take(i as int + 1).drop_last() =~= v@.take(i as int));
        if c == '/' || c == '\\' || c == ':' || c == '*' || c == '?' || c == '"' || c == '<' || c
            == '>' || c == '|' {
            out.push('_');
        } else if c as u32 >= 0x20 {
            out.push(c);
        }
        assert(out@ =~= before + name_char(c));
        i += 1;
    }
    assert(v@.take(i as int) =~= v@);
    let ghost all = out@;
    let total: usize = out.len();
    let mut from: usize = 0;
    assert(all.skip(0) =~= all);
    while from < total && (is_whitespace(out[from]) || out[from] == '.')
        invariant
            from <= total == out@.len(),
            out@ == all,
            trim_left(all) == trim_left(all.skip(from as int)),
        decreases total - from,
    {
        assert(all.skip(from as int).skip(1) =~= all.skip(from as int + 1));
        from += 1;
    }
    let ghost rest = all.skip(from as int);
    assert(trim_left(all) == rest);
    let mut to: usize = total;
    assert(rest.take(rest.len() as int) =~= rest);
    while to > from && (is_whitespace(out[to - 1]) || out[to - 1] == '.')
        invariant
            from <= to <= total == out@.len(),
            out@ == all,
            rest == all.skip(from as int),
            trim_right(rest) == trim_right(rest.take(to - from)),
        decreases to,
    {
        assert(rest.take(to - from).drop_last() =~= rest.take(to - from - 1));
        to -= 1;
    }
    assert(all.subrange(from as int, to as int) =~= rest.take(to - from));
    string_of(&out, from, to)
}

proof fn lemma_name_chars(s: Seq<char>, i: int)
    requires
        0 <= i < name_chars(s).len(),
    ensures
        !is_forbidden(name_chars(s)[i]),
        name_chars(s)[i] as u32 >= 0x20,
    decreases s.len(),
{
    if s.len() > 0 && i < name_chars(s.drop_last()).len() {
        lemma_name_chars(s.drop_last(), i);
    }
}

proof fn lemma_trim_left(s: Seq<char>) -> (k: int)
    ensures
        0 <= k <= s.len(),
        trim_left(s) == s.skip(k),
        trim_left(s).len() > 0 ==> !is_edge(trim_left(s)[0]),
    decreases s.len(),
{
    if s.len() > 0 && is_edge(s[0]) {
        let k = lemma_trim_left(s.skip(1));
        assert(s.skip(1).skip(k) =~= s.skip(k + 1));
        k + 1
    } else {
        assert(s.skip(0) =~= s);
        0
    }
}

proof fn lemma_trim_right(s: Seq<char>) -> (k: int)
    ensures
        0 <= k <= s.len(),
        trim_right(s) == s.take(k),
        trim_right(s).len() > 0 ==> !is_edge(trim_right(s).last()),
    decreases s.len(),
{
    if s.len() > 0 && is_edge(s.last()) {
        let k = lemma_trim_right(s.drop_last());
        assert(s.drop_last().take(k) =~= s.take(k));
        k
    } else {
        assert(s.take(s.len() as int) =~= s);
        s.len() as int
    }
}

/// A name can never lead out of the folder that it is used in: it holds no separator, and neither
/// starts nor ends with a dot, so that it is not `.` or `..` either.
pub proof fn law_names_stay_in_their_folder(s: Seq<char>, i: int)
    requires
        0 <= i < component(s).len(),
    ensures
        !is_forbidden(component(s)[i]),
        component(s)[0] != '.',
        component(s).last() != '.',
{
    let all = name_chars(s);
    let k = lemma_trim_left(all);
    let rest = trim_left(all);
    let n = lemma_trim_right(rest);
    assert(component(s)[i] == all[k + i]);
    lemma_name_chars(s, k + i);
    assert(component(s)[0] == rest[0]);
}

/// A name of plain characters is left as it is, and each character that a path gives a meaning to
/// becomes an underscore.
pub proof fn law_plain_names_stay_as_they_are(s: Seq<char>)
    requires
        forall|i: int| 0 <= i < s.len() ==> (#[trigger] s[i] as u32) >= 0x20,
        s.len() > 0 ==> !is_edge(s[0]) && !is_edge(s.last()),
    ensures
        component(s).len() == s.len(),
        forall|i: int|
            0 <= i < s.len() ==> #[trigger] component(s)[i] == (if s[i] == '/' || s[i] == '\\'
                || s[i] == ':' || s[i] == '*' || s[i] == '?' || s[i] == '"' || s[i] == '<' || s[i]
                == '>' || s[i] == '|' {
                '_'
            } else {
                s[i]
            }),
{
    lemma_name_chars_are(s);
    let all = name_chars(s);
    if s.len() > 0 {
        assert(!is_edge(all[0]));
        assert(!is_edge(all.last()));
        assert(trim_left(all) == all);
        assert(trim_right(all) == all);
    } else {
        assert(all =~= s);
    }
}

proof fn lemma_name_chars_are(s: Seq<char>)
    requires
        forall|i: int| 0 <= i < s.len() ==> (#[trigger] s[i] as u32) >= 0x20,
    ensures
        name_chars(s).len() == s.len(),
        forall|i: int|
            0 <= i < s.len() ==> #[trigger] name_chars(s)[i] == (if is_forbidden(s[i]) {
                '_'
            } else {
                s[i]
            }),
    decreases s.len(),
{
    if s.len() > 0 {
        let d = s.drop_last();
        assert forall|i: int| 0 <= i < d.len() implies (#[trigger] d[i] as u32) >= 0x20 by {
            assert(d[i] == s[i]);
        }
        lemma_name_chars_are(d);
        assert(s.last() == s[s.len() - 1]);
        assert(name_char(s.last()).len() == 1);
    }
}

} // verus!
