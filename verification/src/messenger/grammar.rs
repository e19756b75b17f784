//! The notation for declarations:
//!
//! ```text
//! messenger Name;
//!
//! component name {
//!     sends Request -> Response;
//!     sends Event;
//!     handles Event;
//! }
//! ```
use vstd::prelude::*;
use vstd::string::*;

use crate::messenger::spec::{
    Component, ComponentView, MessageDef, MessageDefView, Spec, SpecView,
};
use crate::text::{group_views, same, views};

verus! {

broadcast use group_views;

/// A token. A type that is more than one word is a token of its own.
#[derive(Debug, PartialEq)]
pub enum Token<S> {
    Word(S),
    Type(S),
    Arrow,
    Semicolon,
    Open,
    Close,
}

impl View for Token<String> {
    type V = Token<Seq<char>>;

    open spec fn view(&self) -> Token<Seq<char>> {
        match self {
            Token::Word(w) => Token::Word(w@),
            Token::Type(t) => Token::Type(t@),
            Token::Arrow => Token::Arrow,
            Token::Semicolon => Token::Semicolon,
            Token::Open => Token::Open,
            Token::Close => Token::Close,
        }
    }
}

pub type Tokens = Seq<Token<Seq<char>>>;

/// What was expected, and how many tokens were left where it was not found.
#[derive(Debug, PartialEq)]
pub struct SyntaxError<S> {
    pub left: usize,
    pub expected: S,
}

pub struct Failure {
    pub left: nat,
    pub expected: Seq<char>,
}

impl View for SyntaxError<String> {
    type V = Failure;

    open spec fn view(&self) -> Failure {
        Failure { left: self.left as nat, expected: self.expected@ }
    }
}

pub open spec fn failed<X>(ts: Tokens, expected: Seq<char>) -> Result<X, Failure> {
    Err(Failure { left: ts.len(), expected })
}

pub open spec fn read_word(ts: Tokens) -> Result<Seq<char>, Failure> {
    if ts.len() > 0 {
        match ts[0] {
            Token::Word(w) => Ok(w),
            _ => failed(ts, "expected identifier"@),
        }
    } else {
        failed(ts, "expected identifier"@)
    }
}

pub open spec fn read_type(ts: Tokens) -> Result<Seq<char>, Failure> {
    if ts.len() > 0 {
        match ts[0] {
            Token::Word(w) => Ok(w),
            Token::Type(t) => Ok(t),
            _ => failed(ts, "expected a type"@),
        }
    } else {
        failed(ts, "expected a type"@)
    }
}

/// A message, perhaps with a response, up to and with its semicolon.
pub open spec fn read_def(ts: Tokens) -> Result<(MessageDefView, Tokens), Failure> {
    match read_type(ts) {
        Err(e) => Err(e),
        Ok(message) => {
            let rest = ts.skip(1);
            if rest.len() > 0 && rest[0] == Token::<Seq<char>>::Arrow {
                match read_type(rest.skip(1)) {
                    Err(e) => Err(e),
                    Ok(response) => {
                        let end = rest.skip(2);
                        if end.len() > 0 && end[0] == Token::<Seq<char>>::Semicolon {
                            Ok((MessageDefView { message, response: Some(response) }, end.skip(1)))
                        } else {
                            failed(end, "expected `;`"@)
                        }
                    },
                }
            } else if rest.len() > 0 && rest[0] == Token::<Seq<char>>::Semicolon {
                Ok((MessageDefView { message, response: None }, rest.skip(1)))
            } else {
                failed(rest, "expected `;`"@)
            }
        },
    }
}

/// What a component sends and handles, up to and with the brace that closes it.
pub open spec fn read_body(
    ts: Tokens,
    sends: Seq<MessageDefView>,
    handles: Seq<MessageDefView>,
) -> Result<(Seq<MessageDefView>, Seq<MessageDefView>, Tokens), Failure>
    decreases ts.len(),
{
    if ts.len() > 0 && ts[0] == Token::<Seq<char>>::Close {
        Ok((sends, handles, ts.skip(1)))
    } else {
        match read_word(ts) {
            Err(e) => Err(e),
            Ok(word) => if word == "sends"@ || word == "handles"@ {
                match read_def(ts.skip(1)) {
                    Err(e) => Err(e),
                    Ok((def, rest)) => if rest.len() < ts.len() {
                        if word == "sends"@ {
                            read_body(rest, sends.push(def), handles)
                        } else {
                            read_body(rest, sends, handles.push(def))
                        }
                    } else {
                        failed(ts, ""@)
                    },
                }
            } else {
                failed(ts, "expected `sends` or `handles`"@)
            },
        }
    }
}

/// A component.
pub open spec fn read_component(ts: Tokens) -> Result<(ComponentView, Tokens), Failure> {
    match read_word(ts) {
        Err(e) => Err(e),
        Ok(word) => if word != "component"@ {
            failed(ts, "expected `component`"@)
        } else {
            match read_word(ts.skip(1)) {
                Err(e) => Err(e),
                Ok(name) => {
                    let body = ts.skip(2);
                    if body.len() > 0 && body[0] == Token::<Seq<char>>::Open {
                        match read_body(body.skip(1), Seq::empty(), Seq::empty()) {
                            Err(e) => Err(e),
                            Ok((sends, handles, rest)) => Ok(
                                (ComponentView { name, sends, handles }, rest),
                            ),
                        }
                    } else {
                        failed(body, "expected curly braces"@)
                    }
                },
            }
        },
    }
}

/// Components, up to the end.
pub open spec fn read_components(ts: Tokens, components: Seq<ComponentView>) -> Result<
    Seq<ComponentView>,
    Failure,
>
    decreases ts.len(),
{
    if ts.len() == 0 {
        Ok(components)
    } else {
        match read_component(ts) {
            Err(e) => Err(e),
            Ok((c, rest)) => if rest.len() < ts.len() {
                read_components(rest, components.push(c))
            } else {
                failed(ts, ""@)
            },
        }
    }
}

/// What is expected first.
pub const FIRST: &'static str = "expected `messenger <Name>;` as the first declaration";

/// A declaration.
pub open spec fn read_spec(ts: Tokens) -> Result<SpecView, Failure> {
    match read_word(ts) {
        Err(e) => Err(e),
        Ok(word) => if word != "messenger"@ {
            failed(ts, FIRST@)
        } else {
            match read_word(ts.skip(1)) {
                Err(e) => Err(e),
                Ok(messenger_name) => {
                    let rest = ts.skip(2);
                    if rest.len() > 0 && rest[0] == Token::<Seq<char>>::Semicolon {
                        match read_components(rest.skip(1), Seq::empty()) {
                            Err(e) => Err(e),
                            Ok(components) => Ok(SpecView { messenger_name, components }),
                        }
                    } else {
                        failed(rest, "expected `;`"@)
                    }
                },
            }
        },
    }
}

fn fail(tokens: &Vec<Token<String>>, at: usize, expected: &str) -> (e: SyntaxError<String>)
    requires
        at <= tokens@.len(),
    ensures
        e@ == (Failure { left: views(tokens@).skip(at as int).len(), expected: expected@ }),
{
    SyntaxError { left: tokens.len() - at, expected: expected.to_owned() }
}

fn word_at(tokens: &Vec<Token<String>>, at: usize) -> (r: Result<String, SyntaxError<String>>)
    requires
        at <= tokens@.len(),
    ensures
        match read_word(views(tokens@).skip(at as int)) {
            Ok(w) => r matches Ok(x) && x@ == w && at < tokens@.len(),
            Err(f) => r matches Err(e) && e@ == f,
        },
{
    if at < tokens.len() {
        assert(views(tokens@).skip(at as int)[0] == tokens@[at as int]@);
        if let Token::Word(w) = &tokens[at] {
            return Ok(w.clone());
        }
    }
    Err(fail(tokens, at, "expected identifier"))
}

fn type_at(tokens: &Vec<Token<String>>, at: usize) -> (r: Result<String, SyntaxError<String>>)
    requires
        at <= tokens@.len(),
    ensures
        match read_type(views(tokens@).skip(at as int)) {
            Ok(w) => r matches Ok(x) && x@ == w && at < tokens@.len(),
            Err(f) => r matches Err(e) && e@ == f,
        },
{
    if at < tokens.len() {
        assert(views(tokens@).skip(at as int)[0] == tokens@[at as int]@);
        match &tokens[at] {
            Token::Word(w) => {
                return Ok(w.clone());
            },
            Token::Type(t) => {
                return Ok(t.clone());
            },
            _ => {},
        }
    }
    Err(fail(tokens, at, "expected a type"))
}

fn is_arrow(tokens: &Vec<Token<String>>, at: usize) -> (r: bool)
    requires
        at <= tokens@.len(),
    ensures
        r == (at < tokens@.len() && views(tokens@).skip(at as int)[0] == Token::<Seq<char>>::Arrow),
{
    if at < tokens.len() {
        assert(views(tokens@).skip(at as int)[0] == tokens@[at as int]@);
        if let Token::Arrow = &tokens[at] {
            return true;
        }
    }
    false
}

fn is_semicolon(tokens: &Vec<Token<String>>, at: usize) -> (r: bool)
    requires
        at <= tokens@.len(),
    ensures
        r == (at < tokens@.len() && views(tokens@).skip(at as int)[0]
            == Token::<Seq<char>>::Semicolon),
{
    if at < tokens.len() {
        assert(views(tokens@).skip(at as int)[0] == tokens@[at as int]@);
        if let Token::Semicolon = &tokens[at] {
            return true;
        }
    }
    false
}

fn is_open(tokens: &Vec<Token<String>>, at: usize) -> (r: bool)
    requires
        at <= tokens@.len(),
    ensures
        r == (at < tokens@.len() && views(tokens@).skip(at as int)[0] == Token::<Seq<char>>::Open),
{
    if at < tokens.len() {
        assert(views(tokens@).skip(at as int)[0] == tokens@[at as int]@);
        if let Token::Open = &tokens[at] {
            return true;
        }
    }
    false
}

fn is_close(tokens: &Vec<Token<String>>, at: usize) -> (r: bool)
    requires
        at <= tokens@.len(),
    ensures
        r == (at < tokens@.len() && views(tokens@).skip(at as int)[0] == Token::<Seq<char>>::Close),
{
    if at < tokens.len() {
        assert(views(tokens@).skip(at as int)[0] == tokens@[at as int]@);
        if let Token::Close = &tokens[at] {
            return true;
        }
    }
    false
}

fn parse_def(tokens: &Vec<Token<String>>, at: usize) -> (r: Result<
    (MessageDef, usize),
    SyntaxError<String>,
>)
    requires
        at <= tokens@.len(),
    ensures
        match read_def(views(tokens@).skip(at as int)) {
            Ok((def, rest)) => r matches Ok((d, next)) && d@ == def && at < next <= tokens@.len()
                && views(tokens@).skip(next as int) == rest,
            Err(f) => r matches Err(e) && e@ == f,
        },
{
    let _n: usize = tokens.len();
    let ghost ts = views(tokens@);
    let message = match type_at(tokens, at) {
        Ok(t) => t,
        Err(e) => {
            return Err(e);
        },
    };
    assert(ts.skip(at as int).skip(1) =~= ts.skip(at + 1));
    if is_arrow(tokens, at + 1) {
        assert(ts.skip(at + 1).skip(1) =~= ts.skip(at + 2));
        let response = match type_at(tokens, at + 2) {
            Ok(t) => t,
            Err(e) => {
                return Err(e);
            },
        };
        assert(ts.skip(at + 1).skip(2) =~= ts.skip(at + 3));
        if is_semicolon(tokens, at + 3) {
            assert(ts.skip(at + 3).skip(1) =~= ts.skip(at + 4));
            Ok((MessageDef { message, response: Some(response) }, at + 4))
        } else {
            Err(fail(tokens, at + 3, "expected `;`"))
        }
    } else if is_semicolon(tokens, at + 1) {
        assert(ts.skip(at + 1).skip(1) =~= ts.skip(at + 2));
        Ok((MessageDef { message, response: None }, at + 2))
    } else {
        Err(fail(tokens, at + 1, "expected `;`"))
    }
}

fn parse_body(tokens: &Vec<Token<String>>, at: usize) -> (r: Result<
    (Vec<MessageDef>, Vec<MessageDef>, usize),
    SyntaxError<String>,
>)
    requires
        at <= tokens@.len(),
    ensures
        match read_body(views(tokens@).skip(at as int), Seq::empty(), Seq::empty()) {
            Ok((sends, handles, rest)) => r matches Ok((s, h, next)) && views(s@) == sends
                && views(h@) == handles && at < next <= tokens@.len() && views(tokens@).skip(
                next as int,
            ) == rest,
            Err(f) => r matches Err(e) && e@ == f,
        },
{
    let n: usize = tokens.len();
    let ghost ts = views(tokens@);
    let mut sends: Vec<MessageDef> = Vec::new();
    let mut handles: Vec<MessageDef> = Vec::new();
    let mut i: usize = at;
    assert(views(sends@) =~= Seq::empty());
    assert(views(handles@) =~= Seq::empty());
    loop
        invariant
            at <= i <= tokens@.len() == n,
            ts == views(tokens@),
            read_body(ts.skip(at as int), Seq::empty(), Seq::empty()) == read_body(
                ts.skip(i as int),
                views(sends@),
                views(handles@),
            ),
        decreases tokens@.len() - i,
    {
        if is_close(tokens, i) {
            assert(ts.skip(i as int).skip(1) =~= ts.skip(i + 1));
            return Ok((sends, handles, i + 1));
        }
        let word = match word_at(tokens, i) {
            Ok(w) => w,
            Err(e) => {
                return Err(e);
            },
        };
        let is_sends = same(word.as_str(), "sends");
        let is_handles = same(word.as_str(), "handles");
        if !is_sends && !is_handles {
            return Err(fail(tokens, i, "expected `sends` or `handles`"));
        }
        assert(ts.skip(i as int).skip(1) =~= ts.skip(i + 1));
        let (def, next) = match parse_def(tokens, i + 1) {
            Ok(found) => found,
            Err(e) => {
                return Err(e);
            },
        };
        let ghost d = def@;
        let ghost before_sends = views(sends@);
        let ghost before_handles = views(handles@);
        if is_sends {
            sends.push(def);
            assert(views(sends@) =~= before_sends.push(d));
        } else {
            handles.push(def);
            assert(views(handles@) =~= before_handles.push(d));
        }
        i = next;
    }
}

fn parse_component(tokens: &Vec<Token<String>>, at: usize) -> (r: Result<
    (Component, usize),
    SyntaxError<String>,
>)
    requires
        at <= tokens@.len(),
    ensures
        match read_component(views(tokens@).skip(at as int)) {
            Ok((component, rest)) => r matches Ok((c, next)) && c@ == component && at < next
                <= tokens@.len() && views(tokens@).skip(next as int) == rest,
            Err(f) => r matches Err(e) && e@ == f,
        },
{
    let _n: usize = tokens.len();
    let ghost ts = views(tokens@);
    let word = match word_at(tokens, at) {
        Ok(w) => w,
        Err(e) => {
            return Err(e);
        },
    };
    if !same(word.as_str(), "component") {
        return Err(fail(tokens, at, "expected `component`"));
    }
    assert(ts.skip(at as int).skip(1) =~= ts.skip(at + 1));
    let name = match word_at(tokens, at + 1) {
        Ok(w) => w,
        Err(e) => {
            return Err(e);
        },
    };
    assert(ts.skip(at as int).skip(2) =~= ts.skip(at + 2));
    if !is_open(tokens, at + 2) {
        return Err(fail(tokens, at + 2, "expected curly braces"));
    }
    assert(ts.skip(at + 2).skip(1) =~= ts.skip(at + 3));
    match parse_body(tokens, at + 3) {
        Ok((sends, handles, next)) => Ok((Component { name, sends, handles }, next)),
        Err(e) => Err(e),
    }
}

/// Reads a declaration.
pub fn parse_spec(tokens: &Vec<Token<String>>) -> (r: Result<Spec, SyntaxError<String>>)
    ensures
        match read_spec(views(tokens@)) {
            Ok(spec) => r matches Ok(s) && s@ == spec,
            Err(f) => r matches Err(e) && e@ == f,
        },
{
    let ghost ts = views(tokens@);
    assert(ts.skip(0) =~= ts);
    let word = match word_at(tokens, 0) {
        Ok(w) => w,
        Err(e) => {
            return Err(e);
        },
    };
    if !same(word.as_str(), "messenger") {
        return Err(fail(tokens, 0, FIRST));
    }
    let messenger_name = match word_at(tokens, 1) {
        Ok(w) => w,
        Err(e) => {
            return Err(e);
        },
    };
    if !is_semicolon(tokens, 2) {
        return Err(fail(tokens, 2, "expected `;`"));
    }
    assert(ts.skip(2).skip(1) =~= ts.skip(3));
    let mut components: Vec<Component> = Vec::new();
    let mut i: usize = 3;
    assert(views(components@) =~= Seq::empty());
    while i < tokens.len()
        invariant
            3 <= i <= tokens@.len(),
            ts == views(tokens@),
            read_spec(ts) == (match read_components(ts.skip(3), Seq::empty()) {
                Err(e) => Err(e),
                Ok(components) => Ok(
                    SpecView { messenger_name: messenger_name@, components },
                ),
            }),
            read_components(ts.skip(3), Seq::empty()) == read_components(
                ts.skip(i as int),
                views(components@),
            ),
        decreases tokens@.len() - i,
    {
        let ghost before = views(components@);
        let (c, next) = match parse_component(tokens, i) {
            Ok(found) => found,
            Err(e) => {
                return Err(e);
            },
        };
        let ghost v = c@;
        components.push(c);
        assert(views(components@) =~= before.push(v));
        i = next;
    }
    assert(ts.skip(i as int) =~= Seq::empty());
    Ok(Spec { messenger_name, components })
}

/// How a message is written.
pub open spec fn spelled_def(def: MessageDefView) -> Tokens {
    match def.response {
        Some(response) => seq![
            Token::Type(def.message),
            Token::Arrow,
            Token::Type(response),
            Token::Semicolon,
        ],
        None => seq![Token::Type(def.message), Token::Semicolon],
    }
}

/// How messages are written, each behind a word.
pub open spec fn spelled_defs(word: Seq<char>, defs: Seq<MessageDefView>) -> Tokens
    decreases defs.len(),
{
    if defs.len() == 0 {
        Seq::empty()
    } else {
        seq![Token::Word(word)] + spelled_def(defs[0]) + spelled_defs(word, defs.skip(1))
    }
}

/// How a component is written: what it sends, then what it handles.
pub open spec fn spelled_component(c: ComponentView) -> Tokens {
    seq![Token::Word("component"@), Token::Word(c.name), Token::Open] + spelled_defs(
        "sends"@,
        c.sends,
    ) + spelled_defs("handles"@, c.handles) + seq![Token::Close]
}

/// How components are written.
pub open spec fn spelled_components(components: Seq<ComponentView>) -> Tokens
    decreases components.len(),
{
    if components.len() == 0 {
        Seq::empty()
    } else {
        spelled_component(components[0]) + spelled_components(components.skip(1))
    }
}

/// How a declaration is written.
pub open spec fn spelled(spec: SpecView) -> Tokens {
    seq![Token::Word("messenger"@), Token::Word(spec.messenger_name), Token::Semicolon]
        + spelled_components(spec.components)
}

proof fn lemma_def_reads(def: MessageDefView, rest: Tokens)
    ensures
        read_def(spelled_def(def) + rest) == Ok::<(MessageDefView, Tokens), Failure>((def, rest)),
{
    let ts = spelled_def(def) + rest;
    match def.response {
        Some(response) => {
            assert(ts.skip(1)[0] == Token::<Seq<char>>::Arrow);
            assert(ts.skip(1).skip(1)[0] == Token::Type(response));
            assert(ts.skip(1).skip(2)[0] == Token::<Seq<char>>::Semicolon);
            assert(ts.skip(1).skip(2).skip(1) =~= rest);
        },
        None => {
            assert(ts.skip(1)[0] == Token::<Seq<char>>::Semicolon);
            assert(ts.skip(1).skip(1) =~= rest);
        },
    }
}

proof fn lemma_sends_read(
    defs: Seq<MessageDefView>,
    rest: Tokens,
    sends: Seq<MessageDefView>,
    handles: Seq<MessageDefView>,
)
    ensures
        read_body(spelled_defs("sends"@, defs) + rest, sends, handles) == read_body(
            rest,
            sends + defs,
            handles,
        ),
    decreases defs.len(),
{
    if defs.len() == 0 {
        assert(spelled_defs("sends"@, defs) + rest =~= rest);
        assert(sends + defs =~= sends);
    } else {
        let tail = spelled_defs("sends"@, defs.skip(1)) + rest;
        let ts = spelled_defs("sends"@, defs) + rest;
        assert(ts.skip(1) =~= spelled_def(defs[0]) + tail);
        assert(ts[0] == Token::Word("sends"@));
        lemma_def_reads(defs[0], tail);
        assert(read_body(ts, sends, handles) == read_body(tail, sends.push(defs[0]), handles));
        lemma_sends_read(defs.skip(1), rest, sends.push(defs[0]), handles);
        assert(sends.push(defs[0]) + defs.skip(1) =~= sends + defs);
    }
}

proof fn lemma_handles_read(
    defs: Seq<MessageDefView>,
    rest: Tokens,
    sends: Seq<MessageDefView>,
    handles: Seq<MessageDefView>,
)
    ensures
        read_body(spelled_defs("handles"@, defs) + rest, sends, handles) == read_body(
            rest,
            sends,
            handles + defs,
        ),
    decreases defs.len(),
{
    if defs.len() == 0 {
        assert(spelled_defs("handles"@, defs) + rest =~= rest);
        assert(handles + defs =~= handles);
    } else {
        reveal_strlit("sends");
        reveal_strlit("handles");
        assert("sends"@.len() != "handles"@.len());
        let tail = spelled_defs("handles"@, defs.skip(1)) + rest;
        let ts = spelled_defs("handles"@, defs) + rest;
        assert(ts.skip(1) =~= spelled_def(defs[0]) + tail);
        assert(ts[0] == Token::Word("handles"@));
        lemma_def_reads(defs[0], tail);
        assert(read_body(ts, sends, handles) == read_body(tail, sends, handles.push(defs[0])));
        lemma_handles_read(defs.skip(1), rest, sends, handles.push(defs[0]));
        assert(handles.push(defs[0]) + defs.skip(1) =~= handles + defs);
    }
}

proof fn lemma_component_reads(c: ComponentView, rest: Tokens)
    ensures
        read_component(spelled_component(c) + rest) == Ok::<(ComponentView, Tokens), Failure>(
            (c, rest),
        ),
{
    let ts = spelled_component(c) + rest;
    let close = seq![Token::<Seq<char>>::Close] + rest;
    let after = spelled_defs("handles"@, c.handles) + close;
    assert(ts[0] == Token::Word("component"@));
    assert(ts.skip(1)[0] == Token::Word(c.name));
    assert(ts.skip(2)[0] == Token::<Seq<char>>::Open);
    assert(ts.skip(2).skip(1) =~= spelled_defs("sends"@, c.sends) + after);
    let none = Seq::<MessageDefView>::empty();
    lemma_sends_read(c.sends, after, none, none);
    lemma_handles_read(c.handles, close, none + c.sends, none);
    assert(none + c.sends =~= c.sends);
    assert(none + c.handles =~= c.handles);
    assert(close.skip(1) =~= rest);
    assert(read_body(close, c.sends, c.handles) == Ok::<
        (Seq<MessageDefView>, Seq<MessageDefView>, Tokens),
        Failure,
    >((c.sends, c.handles, rest)));
}

proof fn lemma_components_read(components: Seq<ComponentView>, before: Seq<ComponentView>)
    ensures
        read_components(spelled_components(components), before) == Ok::<
            Seq<ComponentView>,
            Failure,
        >(before + components),
    decreases components.len(),
{
    if components.len() == 0 {
        assert(before + components =~= before);
    } else {
        let rest = spelled_components(components.skip(1));
        lemma_component_reads(components[0], rest);
        lemma_components_read(components.skip(1), before.push(components[0]));
        assert(before.push(components[0]) + components.skip(1) =~= before + components);
    }
}

/// A declaration that is written out reads back as it was.
pub proof fn law_declarations_read_back(spec: SpecView)
    ensures
        read_spec(spelled(spec)) == Ok::<SpecView, Failure>(spec),
{
    let ts = spelled(spec);
    assert(ts.skip(1)[0] == Token::Word(spec.messenger_name));
    assert(ts.skip(2)[0] == Token::<Seq<char>>::Semicolon);
    assert(ts.skip(2).skip(1) =~= spelled_components(spec.components));
    lemma_components_read(spec.components, Seq::empty());
    assert(Seq::<ComponentView>::empty() + spec.components =~= spec.components);
}

} // verus!
