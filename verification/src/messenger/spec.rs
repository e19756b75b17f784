//! Declarations of components, and what is wrong with them.
use vstd::prelude::*;
use vstd::string::*;

use crate::text::{group_views, ov, same, views};

verus! {

broadcast use group_views;

/// A message that a component sends or handles, by the text of its type. Without a response it is
/// an event.
#[derive(Debug, PartialEq)]
pub struct MessageDef {
    pub message: String,
    pub response: Option<String>,
}

pub struct MessageDefView {
    pub message: Seq<char>,
    pub response: Option<Seq<char>>,
}

impl View for MessageDef {
    type V = MessageDefView;

    open spec fn view(&self) -> MessageDefView {
        MessageDefView { message: self.message@, response: ov(self.response) }
    }
}

impl MessageDef {
    /// What a message is matched by: two components must spell its type the same way.
    pub fn key(&self) -> (r: String)
        ensures
            r@ == self@.message,
    {
        self.message.clone()
    }
}

/// A component: what it sends, and what it handles.
#[derive(Debug, PartialEq)]
pub struct Component {
    pub name: String,
    pub sends: Vec<MessageDef>,
    pub handles: Vec<MessageDef>,
}

#[verifier::ext_equal]
pub struct ComponentView {
    pub name: Seq<char>,
    pub sends: Seq<MessageDefView>,
    pub handles: Seq<MessageDefView>,
}

impl View for Component {
    type V = ComponentView;

    open spec fn view(&self) -> ComponentView {
        ComponentView {
            name: self.name@,
            sends: views(self.sends@),
            handles: views(self.handles@),
        }
    }
}

/// A messenger and its components.
#[derive(Debug, PartialEq)]
pub struct Spec {
    pub messenger_name: String,
    pub components: Vec<Component>,
}

#[verifier::ext_equal]
pub struct SpecView {
    pub messenger_name: Seq<char>,
    pub components: Seq<ComponentView>,
}

impl View for Spec {
    type V = SpecView;

    open spec fn view(&self) -> SpecView {
        SpecView {
            messenger_name: self.messenger_name@,
            components: views(self.components@),
        }
    }
}

/// The declaration that a fault is about.
#[derive(Debug, Clone, Copy, PartialEq, Eq)]
pub enum Place {
    Messenger,
    Component(usize),
    /// A message that a component sends.
    Sends(usize, usize),
    /// A message that a component handles.
    Handles(usize, usize),
}

/// What is wrong with a declaration.
#[derive(Debug, PartialEq)]
pub struct Fault<S> {
    pub place: Place,
    pub text: S,
}

impl View for Fault<String> {
    type V = Fault<Seq<char>>;

    open spec fn view(&self) -> Fault<Seq<char>> {
        Fault { place: self.place, text: self.text@ }
    }
}

/// Whether one of the messages has that key.
pub open spec fn has_key(list: Seq<MessageDefView>, key: Seq<char>) -> bool {
    exists|i: int| 0 <= i < list.len() && (#[trigger] list[i]).message == key
}

/// The first message, from `i` on, that stands in the list before.
pub open spec fn repeated(list: Seq<MessageDefView>, i: int) -> Option<int>
    decreases list.len() - i,
{
    if i < 0 || i >= list.len() {
        None
    } else if has_key(list.take(i), list[i].message) {
        Some(i)
    } else {
        repeated(list, i + 1)
    }
}

/// Whether one of the components has that name.
pub open spec fn has_name(components: Seq<ComponentView>, name: Seq<char>) -> bool {
    exists|i: int| 0 <= i < components.len() && (#[trigger] components[i]).name == name
}

pub open spec fn repeats_text(name: Seq<char>, label: Seq<char>) -> Seq<char> {
    "component `"@ + name + "`: duplicate message in `"@ + label + "`"@
}

/// What is wrong with a component by itself, and its name.
pub open spec fn component_fault(components: Seq<ComponentView>, i: int) -> Option<
    Fault<Seq<char>>,
> {
    let c = components[i];
    if has_name(components.take(i), c.name) {
        Some(
            Fault {
                place: Place::Component(i as usize),
                text: "duplicate component name `"@ + c.name + "`"@,
            },
        )
    } else if c.sends.len() == 0 && c.handles.len() == 0 {
        Some(
            Fault {
                place: Place::Component(i as usize),
                text: "component `"@ + c.name
                    + "` must declare at least one `sends` or `handles`"@,
            },
        )
    } else {
        match repeated(c.sends, 0) {
            Some(j) => Some(
                Fault {
                    place: Place::Sends(i as usize, j as usize),
                    text: repeats_text(c.name, "sends"@),
                },
            ),
            None => match repeated(c.handles, 0) {
                Some(j) => Some(
                    Fault {
                        place: Place::Handles(i as usize, j as usize),
                        text: repeats_text(c.name, "handles"@),
                    },
                ),
                None => None,
            },
        }
    }
}

/// The first component, from `i` on, with which something is wrong by itself.
pub open spec fn components_fault(components: Seq<ComponentView>, i: int) -> Option<
    Fault<Seq<char>>,
>
    decreases components.len() - i,
{
    if i < 0 || i >= components.len() {
        None
    } else {
        match component_fault(components, i) {
            Some(f) => Some(f),
            None => components_fault(components, i + 1),
        }
    }
}

/// The names of the components that handle a message, in the order of their declaration.
pub open spec fn handler_names(components: Seq<ComponentView>, key: Seq<char>) -> Seq<Seq<char>>
    decreases components.len(),
{
    if components.len() == 0 {
        Seq::empty()
    } else {
        let before = handler_names(components.drop_last(), key);
        if has_key(components.last().handles, key) {
            before.push(components.last().name)
        } else {
            before
        }
    }
}

/// Names with commas between them.
pub open spec fn comma_list(names: Seq<Seq<char>>) -> Seq<char>
    decreases names.len(),
{
    if names.len() == 0 {
        ""@
    } else if names.len() == 1 {
        names[0]
    } else {
        comma_list(names.drop_last()) + ", "@ + names.last()
    }
}

/// What is wrong with where a message goes: one with a response needs exactly one handler.
pub open spec fn route_fault(components: Seq<ComponentView>, i: int, j: int) -> Option<
    Fault<Seq<char>>,
> {
    let c = components[i];
    let send = c.sends[j];
    let handlers = handler_names(components, send.message);
    if send.response is None || handlers.len() == 1 {
        None
    } else if handlers.len() == 0 {
        Some(
            Fault {
                place: Place::Sends(i as usize, j as usize),
                text: "component `"@ + c.name + "`: message `"@ + send.message
                    + "` has a response type but no component handles it"@,
            },
        )
    } else {
        Some(
            Fault {
                place: Place::Sends(i as usize, j as usize),
                text: "component `"@ + c.name + "`: message `"@ + send.message
                    + "` has a response type but multiple handlers: "@ + comma_list(handlers)
                    + " (1:1 routing requires exactly one)"@,
            },
        )
    }
}

/// The first message that a component sends, from `j` on, that goes wrong.
pub open spec fn sends_fault(components: Seq<ComponentView>, i: int, j: int) -> Option<
    Fault<Seq<char>>,
>
    decreases components[i].sends.len() - j,
{
    if j < 0 || j >= components[i].sends.len() {
        None
    } else {
        match route_fault(components, i, j) {
            Some(f) => Some(f),
            None => sends_fault(components, i, j + 1),
        }
    }
}

/// The first message, of the components from `i` on, that goes wrong.
pub open spec fn routes_fault(components: Seq<ComponentView>, i: int) -> Option<Fault<Seq<char>>>
    decreases components.len() - i,
{
    if i < 0 || i >= components.len() {
        None
    } else {
        match sends_fault(components, i, 0) {
            Some(f) => Some(f),
            None => routes_fault(components, i + 1),
        }
    }
}

/// What is wrong with a declaration: first with the components by themselves, then with where
/// messages go.
pub open spec fn spec_fault(spec: SpecView) -> Option<Fault<Seq<char>>> {
    if spec.components.len() == 0 {
        Some(Fault { place: Place::Messenger, text: "at least one component is required"@ })
    } else {
        match components_fault(spec.components, 0) {
            Some(f) => Some(f),
            None => routes_fault(spec.components, 0),
        }
    }
}

fn find_key(list: &Vec<MessageDef>, upto: usize, key: &str) -> (r: bool)
    requires
        upto <= list@.len(),
    ensures
        r == has_key(views(list@).take(upto as int), key@),
{
    let ghost all = views(list@).take(upto as int);
    let mut i: usize = 0;
    while i < upto
        invariant
            i <= upto <= list@.len(),
            all == views(list@).take(upto as int),
            forall|j: int| 0 <= j < i ==> (#[trigger] all[j]).message != key@,
        decreases upto - i,
    {
        assert(all[i as int] == list@[i as int]@);
        if same(list[i].message.as_str(), key) {
            return true;
        }
        i += 1;
    }
    false
}

fn find_repeated(list: &Vec<MessageDef>) -> (r: Option<usize>)
    ensures
        match r {
            Some(j) => repeated(views(list@), 0) == Some(j as int),
            None => repeated(views(list@), 0) is None,
        },
{
    let ghost all = views(list@);
    let mut i: usize = 0;
    while i < list.len()
        invariant
            i <= list@.len(),
            all == views(list@),
            repeated(all, 0) == repeated(all, i as int),
        decreases list@.len() - i,
    {
        assert(all[i as int] == list@[i as int]@);
        if find_key(list, i, list[i].message.as_str()) {
            return Some(i);
        }
        i += 1;
    }
    None
}

fn find_name(components: &Vec<Component>, upto: usize, name: &str) -> (r: bool)
    requires
        upto <= components@.len(),
    ensures
        r == has_name(views(components@).take(upto as int), name@),
{
    let ghost all = views(components@).take(upto as int);
    let mut i: usize = 0;
    while i < upto
        invariant
            i <= upto <= components@.len(),
            all == views(components@).take(upto as int),
            forall|j: int| 0 <= j < i ==> (#[trigger] all[j]).name != name@,
        decreases upto - i,
    {
        assert(all[i as int] == components@[i as int]@);
        if same(components[i].name.as_str(), name) {
            return true;
        }
        i += 1;
    }
    false
}

pub open spec fn fault_view(r: Result<(), Fault<String>>) -> Option<Fault<Seq<char>>> {
    match r {
        Ok(()) => None,
        Err(f) => Some(f@),
    }
}

fn comma_listed(names: &Vec<String>) -> (r: String)
    ensures
        r@ == comma_list(views(names@)),
{
    if names.len() == 0 {
        return "".to_owned();
    }
    let ghost all = views(names@);
    let mut out = names[0].clone();
    let mut i: usize = 1;
    assert(all.take(1)[0] == all[0]);
    while i < names.len()
        invariant
            1 <= i <= names@.len(),
            all == views(names@),
            out@ == comma_list(all.take(i as int)),
        decreases names@.len() - i,
    {
        out.append(", ");
        out.append(names[i].as_str());
        i += 1;
        assert(all.take(i as int).drop_last() =~= all.take(i as int - 1));
        assert(all.take(i as int).last() == all[i as int - 1]);
    }
    assert(all.take(i as int) =~= all);
    out
}

impl Spec {
    /// The names of the components that handle a message, in the order of their declaration.
    pub fn handlers_for(&self, key: &str) -> (r: Vec<String>)
        ensures
            views(r@) == handler_names(self@.components, key@),
    {
        let ghost all = self@.components;
        let mut out: Vec<String> = Vec::new();
        let mut i: usize = 0;
        assert(views(out@) =~= handler_names(all.take(0), key@));
        while i < self.components.len()
            invariant
                i <= self.components@.len(),
                all == views(self.components@),
                views(out@) == handler_names(all.take(i as int), key@),
            decreases self.components@.len() - i,
        {
            let ghost so_far = views(out@);
            proof {
                assert(all.take(i + 1).drop_last() =~= all.take(i as int));
                assert(all.take(i + 1).last() == all[i as int]);
                assert(all[i as int] == self.components@[i as int]@);
            }
            let c = &self.components[i];
            assert(views(c.handles@).take(c.handles@.len() as int) =~= views(c.handles@));
            if find_key(&c.handles, c.handles.len(), key) {
                let name = c.name.clone();
                let ghost n = name@;
                out.push(name);
                assert(views(out@) =~= so_far.push(n));
            }
            i += 1;
        }
        assert(all.take(i as int) =~= all);
        out
    }

    fn check_component(&self, i: usize) -> (r: Result<(), Fault<String>>)
        requires
            i < self.components@.len(),
        ensures
            fault_view(r) == component_fault(self@.components, i as int),
    {
        let c = &self.components[i];
        assert(self@.components[i as int] == c@);
        if find_name(&self.components, i, c.name.as_str()) {
            let mut text = "duplicate component name `".to_owned();
            text.append(c.name.as_str());
            text.append("`");
            return Err(Fault { place: Place::Component(i), text });
        }
        if c.sends.len() == 0 && c.handles.len() == 0 {
            let mut text = "component `".to_owned();
            text.append(c.name.as_str());
            text.append("` must declare at least one `sends` or `handles`");
            return Err(Fault { place: Place::Component(i), text });
        }
        if let Some(j) = find_repeated(&c.sends) {
            let mut text = "component `".to_owned();
            text.append(c.name.as_str());
            text.append("`: duplicate message in `");
            text.append("sends");
            text.append("`");
            return Err(Fault { place: Place::Sends(i, j), text });
        }
        if let Some(j) = find_repeated(&c.handles) {
            let mut text = "component `".to_owned();
            text.append(c.name.as_str());
            text.append("`: duplicate message in `");
            text.append("handles");
            text.append("`");
            return Err(Fault { place: Place::Handles(i, j), text });
        }
        Ok(())
    }

    fn check_route(&self, i: usize, j: usize) -> (r: Result<(), Fault<String>>)
        requires
            i < self.components@.len(),
            j < self.components@[i as int].sends@.len(),
        ensures
            fault_view(r) == route_fault(self@.components, i as int, j as int),
    {
        let c = &self.components[i];
        assert(self@.components[i as int] == c@);
        let send = &c.sends[j];
        assert(c@.sends[j as int] == send@);
        if send.response.is_none() {
            return Ok(());
        }
        let handlers = self.handlers_for(send.message.as_str());
        assert(handlers@.len() == views(handlers@).len());
        if handlers.len() == 1 {
            return Ok(());
        }
        let mut text = "component `".to_owned();
        text.append(c.name.as_str());
        text.append("`: message `");
        text.append(send.message.as_str());
        if handlers.len() == 0 {
            text.append("` has a response type but no component handles it");
        } else {
            text.append("` has a response type but multiple handlers: ");
            text.append(comma_listed(&handlers).as_str());
            text.append(" (1:1 routing requires exactly one)");
        }
        Err(Fault { place: Place::Sends(i, j), text })
    }

    /// Tells the first thing that is wrong with the declaration.
    pub fn validate(&self) -> (r: Result<(), Fault<String>>)
        ensures
            fault_view(r) == spec_fault(self@),
    {
        let ghost all = self@.components;
        if self.components.len() == 0 {
            return Err(
                Fault {
                    place: Place::Messenger,
                    text: "at least one component is required".to_owned(),
                },
            );
        }
        let mut i: usize = 0;
        while i < self.components.len()
            invariant
                i <= self.components@.len(),
                self.components@.len() > 0,
                all == self@.components,
                components_fault(all, 0) == components_fault(all, i as int),
            decreases self.components@.len() - i,
        {
            let r = self.check_component(i);
            if r.is_err() {
                return r;
            }
            i += 1;
        }
        let mut i: usize = 0;
        while i < self.components.len()
            invariant
                i <= self.components@.len(),
                self.components@.len() > 0,
                all == self@.components,
                components_fault(all, 0) is None,
                routes_fault(all, 0) == routes_fault(all, i as int),
            decreases self.components@.len() - i,
        {
            assert(all[i as int] == self.components@[i as int]@);
            let mut j: usize = 0;
            while j < self.components[i].sends.len()
                invariant
                    i < self.components@.len(),
                    j <= self.components@[i as int].sends@.len(),
                    all == self@.components,
                    all[i as int] == self.components@[i as int]@,
                    components_fault(all, 0) is None,
                    routes_fault(all, 0) == routes_fault(all, i as int),
                    sends_fault(all, i as int, 0) == sends_fault(all, i as int, j as int),
                decreases self.components@[i as int].sends@.len() - j,
            {
                let r = self.check_route(i, j);
                if r.is_err() {
                    return r;
                }
                j += 1;
            }
            i += 1;
        }
        Ok(())
    }
}

/// In a declaration without faults each message with a response has exactly one handler.
pub proof fn law_requests_have_one_handler(spec: SpecView, i: int, j: int)
    requires
        spec_fault(spec) is None,
        0 <= i < spec.components.len(),
        0 <= j < spec.components[i].sends.len(),
        spec.components[i].sends[j].response is Some,
    ensures
        handler_names(spec.components, spec.components[i].sends[j].message).len() == 1,
{
    lemma_no_route_fault(spec.components, 0, i);
    lemma_no_send_fault(spec.components, i, 0, j);
}

proof fn lemma_no_route_fault(components: Seq<ComponentView>, from: int, i: int)
    requires
        routes_fault(components, from) is None,
        0 <= from <= i < components.len(),
    ensures
        sends_fault(components, i, 0) is None,
    decreases i - from,
{
    if from < i {
        lemma_no_route_fault(components, from + 1, i);
    }
}

proof fn lemma_no_send_fault(components: Seq<ComponentView>, i: int, from: int, j: int)
    requires
        sends_fault(components, i, from) is None,
        0 <= from <= j < components[i].sends.len(),
    ensures
        route_fault(components, i, j) is None,
    decreases j - from,
{
    if from < j {
        lemma_no_send_fault(components, i, from + 1, j);
    }
}

/// In a declaration without faults no two components have one name.
pub proof fn law_components_have_names_of_their_own(spec: SpecView, i: int, j: int)
    requires
        spec_fault(spec) is None,
        0 <= i < j < spec.components.len(),
    ensures
        spec.components[i].name != spec.components[j].name,
{
    lemma_no_component_fault(spec.components, 0, j);
    assert(spec.components.take(j)[i] == spec.components[i]);
}

proof fn lemma_no_component_fault(components: Seq<ComponentView>, from: int, i: int)
    requires
        components_fault(components, from) is None,
        0 <= from <= i < components.len(),
    ensures
        component_fault(components, i) is None,
    decreases i - from,
{
    if from < i {
        lemma_no_component_fault(components, from + 1, i);
    }
}

/// Whether no two messages of a list are the same.
pub open spec fn all_differ(list: Seq<MessageDefView>) -> bool {
    forall|a: int, b: int|
        0 <= a < b < list.len() ==> (#[trigger] list[a]).message != (#[trigger] list[b]).message
}

/// Whether a component handles a message.
pub open spec fn takes(c: ComponentView, key: Seq<char>) -> bool {
    exists|k: int| 0 <= k < c.handles.len() && (#[trigger] c.handles[k]).message == key
}

/// Whether a component declares something, and nothing twice.
pub open spec fn is_whole(c: ComponentView) -> bool {
    c.sends.len() + c.handles.len() > 0 && all_differ(c.sends) && all_differ(c.handles)
}

/// Whether each message of a component that asks for a response has exactly one handler.
pub open spec fn is_served(components: Seq<ComponentView>, c: ComponentView) -> bool {
    forall|j: int|
        0 <= j < c.sends.len() && (#[trigger] c.sends[j]).response is Some ==> components.filter(
            |d: ComponentView| takes(d, c.sends[j].message),
        ).len() == 1
}

proof fn lemma_repeated_is(list: Seq<MessageDefView>, i: int)
    requires
        0 <= i <= list.len(),
    ensures
        repeated(list, i) is None <==> forall|a: int, b: int|
            i <= b < list.len() && 0 <= a < b ==> (#[trigger] list[a]).message != (
            #[trigger] list[b]).message,
        repeated(list, i) matches Some(j) ==> i <= j < list.len(),
    decreases list.len() - i,
{
    if i < list.len() {
        lemma_repeated_is(list, i + 1);
        let before = list.take(i);
        if has_key(before, list[i].message) {
            let a = choose|a: int|
                0 <= a < before.len() && (#[trigger] before[a]).message == list[i].message;
            assert(list[a].message == list[i].message);
        } else {
            assert forall|a: int, b: int| i <= b < list.len() && 0 <= a < b && (b > i || !has_key(
                before,
                list[i].message,
            )) && (repeated(list, i + 1) is None || b == i) implies (#[trigger] list[a]).message
                != (#[trigger] list[b]).message by {
                if b == i {
                    assert(before[a] == list[a]);
                }
            }
        }
    }
}

/// The handlers of a message are the components that handle it, in the order of the declarations.
pub proof fn law_handlers_are_those_that_take_the_message(
    components: Seq<ComponentView>,
    key: Seq<char>,
    i: int,
)
    ensures
        ({
            let takers = components.filter(|c: ComponentView| takes(c, key));
            let names = handler_names(components, key);
            &&& names.len() == takers.len()
            &&& 0 <= i < names.len() ==> names[i] == takers[i].name
        }),
    decreases components.len(),
{
    reveal(Seq::filter);
    if components.len() > 0 {
        law_handlers_are_those_that_take_the_message(components.drop_last(), key, i);
        let c = components.last();
        assert(has_key(c.handles, key) == takes(c, key));
    }
}

proof fn lemma_component_fault(components: Seq<ComponentView>, i: int)
    requires
        0 <= i < components.len(),
    ensures
        component_fault(components, i) is None <==> is_whole(components[i]) && (forall|k: int|
            0 <= k < i ==> (#[trigger] components[k]).name != components[i].name),
{
    let c = components[i];
    let before = components.take(i);
    lemma_repeated_is(c.sends, 0);
    lemma_repeated_is(c.handles, 0);
    if has_name(before, c.name) {
        let k = choose|k: int| 0 <= k < before.len() && (#[trigger] before[k]).name == c.name;
        assert(components[k].name == c.name);
    } else {
        assert forall|k: int| 0 <= k < i implies (#[trigger] components[k]).name != c.name by {
            assert(before[k] == components[k]);
        }
    }
}

proof fn lemma_components_fault(components: Seq<ComponentView>, i: int)
    requires
        0 <= i <= components.len(),
    ensures
        components_fault(components, i) is None <==> forall|k: int|
            i <= k < components.len() ==> #[trigger] component_fault(components, k) is None,
    decreases components.len() - i,
{
    if i < components.len() {
        lemma_components_fault(components, i + 1);
    }
}

proof fn lemma_sends_fault(components: Seq<ComponentView>, i: int, j: int)
    requires
        0 <= i < components.len(),
        0 <= j <= components[i].sends.len(),
    ensures
        sends_fault(components, i, j) is None <==> forall|k: int|
            j <= k < components[i].sends.len() ==> #[trigger] route_fault(components, i, k) is None,
    decreases components[i].sends.len() - j,
{
    if j < components[i].sends.len() {
        lemma_sends_fault(components, i, j + 1);
    }
}

proof fn lemma_routes_fault(components: Seq<ComponentView>, i: int)
    requires
        0 <= i <= components.len(),
    ensures
        routes_fault(components, i) is None <==> forall|k: int|
            i <= k < components.len() ==> #[trigger] sends_fault(components, k, 0) is None,
    decreases components.len() - i,
{
    if i < components.len() {
        lemma_routes_fault(components, i + 1);
    }
}

proof fn lemma_served(components: Seq<ComponentView>, i: int)
    requires
        0 <= i < components.len(),
    ensures
        sends_fault(components, i, 0) is None <==> is_served(components, components[i]),
{
    let c = components[i];
    lemma_sends_fault(components, i, 0);
    assert forall|j: int| 0 <= j < c.sends.len() implies (#[trigger] route_fault(
        components,
        i,
        j,
    ) is None <==> (c.sends[j].response is Some ==> components.filter(
        |d: ComponentView| takes(d, c.sends[j].message),
    ).len() == 1)) by {
        law_handlers_are_those_that_take_the_message(components, c.sends[j].message, 0);
    }
    if sends_fault(components, i, 0) is None {
        assert forall|j: int|
            0 <= j < c.sends.len() && (
            #[trigger] c.sends[j]).response is Some implies components.filter(
            |d: ComponentView| takes(d, c.sends[j].message),
        ).len() == 1 by {
            assert(route_fault(components, i, j) is None);
        }
    }
    if is_served(components, c) {
        assert forall|j: int| 0 <= j < c.sends.len() implies #[trigger] route_fault(
            components,
            i,
            j,
        ) is None by {
            if c.sends[j].response is Some {
                assert(components.filter(
                    |d: ComponentView| takes(d, c.sends[j].message),
                ).len() == 1);
            }
        }
    }
}

/// A declaration is accepted if and only if it names components, no two alike, each of which
/// declares something and nothing twice, and every message that asks for a response has exactly one
/// handler.
pub proof fn law_whole_declarations_are_accepted(spec: SpecView)
    ensures
        spec_fault(spec) is None <==> {
            &&& spec.components.len() > 0
            &&& forall|a: int, b: int|
                0 <= a < b < spec.components.len() ==> (#[trigger] spec.components[a]).name != (
                #[trigger] spec.components[b]).name
            &&& forall|i: int|
                0 <= i < spec.components.len() ==> is_whole(#[trigger] spec.components[i])
            &&& forall|i: int|
                0 <= i < spec.components.len() ==> is_served(
                    spec.components,
                    #[trigger] spec.components[i],
                )
        },
{
    let cs = spec.components;
    lemma_components_fault(cs, 0);
    lemma_routes_fault(cs, 0);
    assert forall|i: int| 0 <= i < cs.len() implies (#[trigger] component_fault(cs, i) is None
        <==> is_whole(cs[i]) && (forall|k: int|
        0 <= k < i ==> (#[trigger] cs[k]).name != cs[i].name)) by {
        lemma_component_fault(cs, i);
    }
    assert forall|i: int| 0 <= i < cs.len() implies (#[trigger] sends_fault(cs, i, 0) is None
        <==> is_served(cs, cs[i])) by {
        lemma_served(cs, i);
    }
    if spec_fault(spec) is None {
        assert forall|a: int, b: int| 0 <= a < b < cs.len() implies (#[trigger] cs[a]).name != (
        #[trigger] cs[b]).name by {
            assert(component_fault(cs, b) is None);
        }
        assert forall|i: int| 0 <= i < cs.len() implies is_whole(#[trigger] cs[i]) by {
            assert(component_fault(cs, i) is None);
        }
        assert forall|i: int| 0 <= i < cs.len() implies is_served(cs, #[trigger] cs[i]) by {
            assert(sends_fault(cs, i, 0) is None);
        }
    }
}

} // verus!
