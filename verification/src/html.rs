//! HTML escaping.
use vstd::prelude::*;
use vstd::string::*;
use crate::text::chars_of;

verus! {

/// What stands for one character in HTML text and attribute values.
pub open spec fn escaped_char(c: char) -> Seq<char> {
    if c == '&' {
        seq!['&', 'a', 'm', 'p', ';']
    } else if c == '<' {
        seq!['&', 'l', 't', ';']
    } else if c == '>' {
        seq!['&', 'g', 't', ';']
    } else if c == '"' {
        seq!['&', 'q', 'u', 'o', 't', ';']
    } else {
        seq![c]
    }
}

/// `s` with each character written as [`escaped_char`] says.
pub open spec fn escaped(s: Seq<char>) -> Seq<char>
    decreases s.len(),
{
    if s.len() == 0 {
        Seq::empty()
    } else {
        escaped_char(s[0]) + escaped(s.skip(1))
    }
}

/// Escapes `&`, `<`, `>` and `"`.
pub fn escape(text: &str) -> (r: String)
    ensures
        r@ == escaped(text@),
{
    let v = chars_of(text);
    let mut out = String::new();
    let mut i: usize = 0;
    assert(text@.skip(0) =~= text@);
    assert(out@ + escaped(text@) =~= escaped(text@));
    while i < v.len()
        invariant
            i <= v@.len(),
            v@ == text@,
            out@ + escaped(text@.skip(i as int)) == escaped(text@),
        decreases v@.len() - i,
    {
        let c = v[i];
        let ghost before = out@;
        let ghost rest = text@.skip(i as int);
        proof {
            reveal_strlit("&amp;");
            reveal_strlit("&lt;");
            reveal_strlit("&gt;");
            reveal_strlit("&quot;");
        }
        if c == '&' {
            out.append("&amp;");
        } else if c == '<' {
            out.append("&lt;");
        } else if c == '>' {
            out.append("&gt;");
        } else if c == '"' {
            out.append("&quot;");
        } else {
            out.push(c);
        }
        assert(out@ =~= before + escaped_char(c));
        assert(rest[0] == c);
        assert(rest.skip(1) =~= text@.skip(i as int + 1));
        assert(out@ + escaped(text@.skip(i as int + 1)) =~= before + escaped(rest));
        i += 1;
    }
    assert(out@ + escaped(text@.skip(i as int)) =~= out@);
    out
}

/// No character that could open markup or close an attribute value is left in escaped text.
pub proof fn law_escaped_has_no_markup(s: Seq<char>, i: int)
    requires
        0 <= i < escaped(s).len(),
    ensures
        escaped(s)[i] != '<',
        escaped(s)[i] != '>',
        escaped(s)[i] != '"',
    decreases s.len(),
{
    if s.len() > 0 {
        let head = escaped_char(s[0]);
        if i >= head.len() {
            law_escaped_has_no_markup(s.skip(1), i - head.len());
        } else {
            assert(escaped(s)[i] == head[i]);
        }
    }
}

proof fn lemma_escaped_nonempty(s: Seq<char>)
    requires
        s.len() > 0,
    ensures
        escaped(s).len() > 0,
        escaped(s)[0] == escaped_char(s[0])[0],
        escaped_char(s[0]).len() > 1 ==> escaped(s)[1] == escaped_char(s[0])[1],
{
}

/// Two texts that differ are escaped differently: escaping loses nothing.
pub proof fn law_escape_loses_nothing(a: Seq<char>, b: Seq<char>)
    requires
        escaped(a) == escaped(b),
    ensures
        a == b,
    decreases a.len(),
{
    if a.len() == 0 {
        if b.len() > 0 {
            lemma_escaped_nonempty(b);
        }
        assert(a =~= b);
    } else {
        lemma_escaped_nonempty(a);
        if b.len() > 0 {
            lemma_escaped_nonempty(b);
            assert(a[0] == b[0]);
            let head = escaped_char(a[0]);
            assert(escaped(a.skip(1)) =~= escaped(a).skip(head.len() as int));
            assert(escaped(b.skip(1)) =~= escaped(b).skip(head.len() as int));
            law_escape_loses_nothing(a.skip(1), b.skip(1));
            assert(a =~= seq![a[0]] + a.skip(1));
            assert(b =~= seq![b[0]] + b.skip(1));
        }
    }
}

} // verus!
