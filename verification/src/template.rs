//! Texts with blanks.
use vstd::prelude::*;
use vstd::string::*;

use crate::text::{chars_of, group_views, views};

verus! {

broadcast use group_views;

/// A text with its blanks (`{}`) filled, in order. Blanks beyond the values stay as they are.
pub open spec fn filled(text: Seq<char>, values: Seq<Seq<char>>) -> Seq<char>
    decreases text.len(),
{
    if text.len() == 0 {
        Seq::empty()
    } else if text.len() >= 2 && text[0] == '{' && text[1] == '}' && values.len() > 0 {
        values[0] + filled(text.skip(2), values.skip(1))
    } else {
        seq![text[0]] + filled(text.skip(1), values)
    }
}

/// No values yet.
pub open spec fn blanks() -> Seq<Seq<char>> {
    Seq::empty()
}

/// What fills the blanks of a text.
pub struct Values {
    list: Vec<String>,
}

impl View for Values {
    type V = Seq<Seq<char>>;

    closed spec fn view(&self) -> Seq<Seq<char>> {
        views(self.list@)
    }
}

impl Values {
    pub fn new() -> (values: Values)
        ensures
            values@ == blanks(),
    {
        let values = Values { list: Vec::new() };
        assert(values@ =~= blanks());
        values
    }

    /// One more value.
    pub fn add(&mut self, value: String)
        ensures
            final(self)@ == old(self)@.push(value@),
    {
        self.list.push(value);
    }

    /// One more value.
    pub fn add_str(&mut self, value: &str)
        ensures
            final(self)@ == old(self)@.push(value@),
    {
        self.list.push(value.to_owned());
    }

    /// A number as one more value.
    pub fn add_number(&mut self, n: u64)
        ensures
            final(self)@ == old(self)@.push(crate::text::decimal(n as nat)),
    {
        self.list.push(crate::text::to_decimal(n));
    }
}

/// Fills the blanks of a text.
pub fn fill(text: &str, values: &Values) -> (r: String)
    ensures
        r@ == filled(text@, values@),
{
    let v = chars_of(text);
    let total: usize = v.len();
    let ghost all = values@;
    let mut out = String::new();
    let mut i: usize = 0;
    let mut used: usize = 0;
    proof {
        assert(text@.skip(0) =~= text@);
        assert(all.skip(0) =~= all);
        assert(out@ + filled(text@, all) =~= filled(text@, all));
    }
    while i < total
        invariant
            i <= total == v@.len(),
            v@ == text@,
            all == views(values.list@),
            used <= all.len(),
            out@ + filled(text@.skip(i as int), all.skip(used as int)) == filled(text@, all),
        decreases total - i,
    {
        let ghost rest = text@.skip(i as int);
        let ghost left = all.skip(used as int);
        let ghost before = out@;
        if v[i] == '{' && total - i >= 2 && v[i + 1] == '}' && used < values.list.len() {
            out.append(values.list[used].as_str());
            assert(rest.skip(2) =~= text@.skip(i as int + 2));
            assert(left.skip(1) =~= all.skip(used as int + 1));
            assert(left[0] == values.list@[used as int]@);
            assert(out@ + filled(rest.skip(2), left.skip(1)) =~= before + filled(rest, left));
            i += 2;
            used += 1;
        } else {
            out.push(v[i]);
            assert(rest.skip(1) =~= text@.skip(i as int + 1));
            assert(out@ + filled(rest.skip(1), left) =~= before + filled(rest, left));
            i += 1;
        }
    }
    assert(out@ + filled(text@.skip(i as int), all.skip(used as int)) =~= out@);
    out
}

/// Fills the only blank of a text.
pub fn fill1(text: &str, a: &str) -> (r: String)
    ensures
        r@ == filled(text@, blanks().push(a@)),
{
    let mut values = Values::new();
    values.add_str(a);
    fill(text, &values)
}

/// Fills the two blanks of a text.
pub fn fill2(text: &str, a: &str, b: &str) -> (r: String)
    ensures
        r@ == filled(text@, blanks().push(a@).push(b@)),
{
    let mut values = Values::new();
    values.add_str(a);
    values.add_str(b);
    fill(text, &values)
}

/// Fills the three blanks of a text.
pub fn fill3(text: &str, a: &str, b: &str, c: &str) -> (r: String)
    ensures
        r@ == filled(text@, blanks().push(a@).push(b@).push(c@)),
{
    let mut values = Values::new();
    values.add_str(a);
    values.add_str(b);
    values.add_str(c);
    fill(text, &values)
}

/// A blank is filled with the first value, and what stands before it is left as it is; a text
/// without blanks stays as it is.
pub proof fn law_a_blank_takes_its_value(before: Seq<char>, after: Seq<char>, values: Seq<Seq<char>>)
    requires
        forall|k: int| 0 <= k < before.len() ==> #[trigger] before[k] != '{',
    ensures
        values.len() > 0 ==> filled(before + seq!['{', '}'] + after, values) == before + values[0]
            + filled(after, values.skip(1)),
        filled(before, values) == before,
    decreases before.len(),
{
    let text = before + seq!['{', '}'] + after;
    if before.len() == 0 {
        assert(text.skip(2) =~= after);
        if values.len() > 0 {
            assert(text[0] == '{' && text[1] == '}');
            assert(filled(text, values) =~= before + values[0] + filled(after, values.skip(1)));
        }
        assert(filled(before, values) =~= before);
    } else {
        let rest = before.skip(1);
        assert forall|k: int| 0 <= k < rest.len() implies #[trigger] rest[k] != '{' by {
            assert(rest[k] == before[k + 1]);
        }
        law_a_blank_takes_its_value(rest, after, values);
        assert(text[0] == before[0]);
        assert(text.skip(1) =~= rest + seq!['{', '}'] + after);
        if values.len() > 0 {
            assert(filled(text, values) =~= before + values[0] + filled(after, values.skip(1)));
        }
        assert(filled(before, values) =~= before);
    }
}

/// A blank behind a text without blanks, within a longer text.
pub proof fn lemma_blank_at(
    t: Seq<char>,
    at: int,
    before: Seq<char>,
    next: int,
    values: Seq<Seq<char>>,
    i: int,
)
    requires
        0 <= at,
        next == at + before.len() + 2,
        next <= t.len(),
        t.subrange(at, next - 2) == before,
        forall|k: int| 0 <= k < before.len() ==> #[trigger] before[k] != '{',
        t[next - 2] == '{',
        t[next - 1] == '}',
        0 <= i < values.len(),
    ensures
        filled(t.skip(at), values.skip(i)) == before + (values[i] + filled(
            t.skip(next),
            values.skip(i + 1),
        )),
{
    assert(t.skip(at) =~= before + seq!['{', '}'] + t.skip(next));
    law_a_blank_takes_its_value(before, t.skip(next), values.skip(i));
    assert(values.skip(i).skip(1) =~= values.skip(i + 1));
    assert(before + values[i] + filled(t.skip(next), values.skip(i + 1)) =~= before + (values[i]
        + filled(t.skip(next), values.skip(i + 1))));
}

/// What stands behind the last blank of a longer text.
pub proof fn lemma_text_behind(t: Seq<char>, at: int, rest: Seq<char>, values: Seq<Seq<char>>)
    requires
        0 <= at <= t.len(),
        t.subrange(at, t.len() as int) == rest,
        forall|k: int| 0 <= k < rest.len() ==> #[trigger] rest[k] != '{',
    ensures
        filled(t.skip(at), values) == rest,
{
    assert(t.skip(at) =~= rest);
    law_a_blank_takes_its_value(rest, Seq::empty(), values);
}

} // verus!
