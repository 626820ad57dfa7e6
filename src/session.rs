use vstd::prelude::*;
use vstd::utf8::encode_utf8;
use crate::registry::Registry;
use crate::schema::{find_key, lookup, Field, TypeSchema};
use crate::text::text_eq;

verus! {

/// The three entry points of a contract.
#[derive(PartialEq, Eq, Structural, Clone, Copy, Debug)]
pub enum CallKind {
    Init,
    Handle,
    Query,
}

/// What the operator asked for at the call-type prompt.
#[derive(PartialEq, Eq, Structural, Clone, Copy, Debug)]
pub enum CallChoice {
    Call(CallKind),
    Switch,
}

/// Failures of a session step.
#[derive(PartialEq, Eq, Structural, Clone, Copy, Debug)]
pub enum SessionError {
    /// The address asked for has no registered contract.
    NoSuchContract,
}

/// The name of an entry point.
pub open spec fn entry_point_spec(k: CallKind) -> Seq<char> {
    match k {
        CallKind::Init => "init"@,
        CallKind::Handle => "handle"@,
        CallKind::Query => "query"@,
    }
}

/// The conventional root message group of an entry point.
pub open spec fn root_group_spec(k: CallKind) -> Seq<char> {
    match k {
        CallKind::Init => "InitMsg"@,
        CallKind::Handle => "HandleMsg"@,
        CallKind::Query => "QueryMsg"@,
    }
}

/// The choice that an operator's answer stands for; `switch` only counts where it
/// is offered, that is where several contracts are loaded.
pub open spec fn call_choice_spec(input: Seq<char>, switch_offered: bool) -> Option<CallChoice> {
    if input == "init"@ {
        Some(CallChoice::Call(CallKind::Init))
    } else if input == "handle"@ {
        Some(CallChoice::Call(CallKind::Handle))
    } else if input == "query"@ {
        Some(CallChoice::Call(CallKind::Query))
    } else if switch_offered && input == "switch"@ {
        Some(CallChoice::Switch)
    } else {
        None
    }
}

impl CallKind {
    /// The entry point's name, as the engine knows it.
    pub fn entry_point(&self) -> (r: &'static str)
        ensures
            r@ == entry_point_spec(*self),
    {
        match self {
            CallKind::Init => "init",
            CallKind::Handle => "handle",
            CallKind::Query => "query",
        }
    }

    /// The name of the message group that this entry point takes by convention.
    pub fn root_group_name(&self) -> (r: &'static str)
        ensures
            r@ == root_group_spec(*self),
    {
        match self {
            CallKind::Init => "InitMsg",
            CallKind::Handle => "HandleMsg",
            CallKind::Query => "QueryMsg",
        }
    }
}

/// Reads the operator's answer at the call-type prompt; none for an answer that is
/// not one of the offered choices, which is asked again.
pub fn parse_call_type(input: &str, switch_offered: bool) -> (r: Option<CallChoice>)
    ensures
        r == call_choice_spec(input@, switch_offered),
{
    if text_eq(input, "init") {
        Some(CallChoice::Call(CallKind::Init))
    } else if text_eq(input, "handle") {
        Some(CallChoice::Call(CallKind::Handle))
    } else if text_eq(input, "query") {
        Some(CallChoice::Call(CallKind::Query))
    } else if switch_offered && text_eq(input, "switch") {
        Some(CallChoice::Switch)
    } else {
        None
    }
}

/// The message group used for `kind` without asking: its conventional root group,
/// where the schema declares it.
pub fn root_group(schema: &TypeSchema, kind: CallKind) -> (r: Option<&'static str>)
    ensures
        match r {
            Some(g) => g@ == root_group_spec(kind) && lookup(schema.groups@, g@) is Some,
            None => lookup(schema.groups@, root_group_spec(kind)) is None,
        },
{
    let g = kind.root_group_name();
    match find_key(&schema.groups, g) {
        Some(_) => Some(g),
        None => None,
    }
}

/// How the message group of a call is found.
#[derive(PartialEq, Eq, Structural, Clone, Copy, Debug)]
pub enum GroupStep {
    /// The module declares no message group: the operator enters raw JSON.
    RawJson,
    /// The entry point's conventional root group is declared and is used.
    Root,
    /// The operator picks one of the declared groups.
    Ask,
}

/// The way the message group of a call of `kind` is found.
pub fn group_step(schema: &TypeSchema, kind: CallKind) -> (r: GroupStep)
    ensures
        r == (if schema.groups@.len() == 0 {
            GroupStep::RawJson
        } else if lookup(schema.groups@, root_group_spec(kind)) is Some {
            GroupStep::Root
        } else {
            GroupStep::Ask
        }),
{
    if schema.is_raw_json_mode() {
        GroupStep::RawJson
    } else if root_group(schema, kind).is_some() {
        GroupStep::Root
    } else {
        GroupStep::Ask
    }
}

/// The variant chosen without asking: the only one, where a group has exactly one.
pub fn sole_variant(variants: &Vec<(String, Vec<Field>)>) -> (r: Option<usize>)
    ensures
        r == (if variants@.len() == 1 {
            Some(0usize)
        } else {
            None::<usize>
        }),
{
    if variants.len() == 1 {
        Some(0)
    } else {
        None
    }
}

/// The position of the variant named `name`.
pub fn find_variant(variants: &Vec<(String, Vec<Field>)>, name: &str) -> (r: Option<usize>)
    ensures
        match r {
            Some(i) => i < variants@.len() && variants@[i as int].0@ == name@ && lookup(
                variants@,
                name@,
            ) == Some(variants@[i as int].1),
            None => lookup(variants@, name@) is None,
        },
{
    find_key(variants, name)
}

/// The operator session: which contract calls go to.
pub struct Session {
    pub active: String,
}

impl Session {
    pub fn new(active: &str) -> (r: Session)
        ensures
            r.active@ == active@,
    {
        Session { active: String::from_str(active) }
    }

    /// Switches calls to the contract at `target`. An unregistered address is
    /// refused and leaves the active contract as it was; otherwise the result says
    /// whether the active contract changed.
    pub fn switch_to<T>(&mut self, registry: &Registry<T>, target: &str) -> (r: Result<bool, SessionError>)
        ensures
            !registry@.contains_key(target@) ==> r == Err::<bool, SessionError>(
                SessionError::NoSuchContract,
            ) && final(self).active@ == old(self).active@,
            registry@.contains_key(target@) ==> r == Ok::<bool, SessionError>(
                target@ != old(self).active@,
            ) && final(self).active@ == target@,
    {
        if !registry.contains(target) {
            return Err(SessionError::NoSuchContract);
        }
        let moved = !text_eq(self.active.as_str(), target);
        self.active = String::from_str(target);
        Ok(moved)
    }
}

/// Byte-wise lexicographic order.
pub open spec fn bytes_le(a: Seq<u8>, b: Seq<u8>) -> bool
    decreases a.len(),
{
    if a.len() == 0 {
        true
    } else if b.len() == 0 {
        false
    } else if a[0] != b[0] {
        a[0] < b[0]
    } else {
        bytes_le(a.drop_first(), b.drop_first())
    }
}

/// Relies on itertools::sorted, which sorts by `Ord`; `String` orders by the bytes
/// of its UTF-8 encoding.
#[verifier::external_body]
fn sort_texts(v: Vec<String>) -> (r: Vec<String>)
    ensures
        r@.to_multiset() == v@.to_multiset(),
        forall|i: int, j: int| 0 <= i < j < r@.len() ==> bytes_le(encode_utf8(r@[i]@), encode_utf8(r@[j]@)),
{
    itertools::sorted(v).collect()
}

/// Names in the order in which choices are offered to the operator.
pub fn sorted_names(v: Vec<String>) -> (r: Vec<String>)
    ensures
        r@.to_multiset() == v@.to_multiset(),
        forall|i: int, j: int| 0 <= i < j < r@.len() ==> bytes_le(encode_utf8(r@[i]@), encode_utf8(r@[j]@)),
{
    sort_texts(v)
}

/// The keys of an entry list (the declared message groups, or a group's
/// variants), in the order offered to the operator.
pub fn key_choices<V>(entries: &Vec<(String, V)>) -> (r: Vec<String>)
    ensures
        r@.to_multiset() == entries@.map_values(|e: (String, V)| e.0).to_multiset(),
        forall|i: int, j: int| 0 <= i < j < r@.len() ==> bytes_le(encode_utf8(r@[i]@), encode_utf8(r@[j]@)),
{
    let mut names: Vec<String> = Vec::new();
    let mut i: usize = 0;
    while i < entries.len()
        invariant
            i <= entries@.len(),
            names@ == entries@.take(i as int).map_values(|e: (String, V)| e.0),
        decreases entries@.len() - i,
    {
        names.push(entries[i].0.clone());
        assert(entries@.take(i + 1).map_values(|e: (String, V)| e.0) =~= names@);
        i = i + 1;
    }
    assert(entries@.take(entries@.len() as int) =~= entries@);
    sorted_names(names)
}

/// The registered addresses, in the order offered to the operator.
pub fn address_choices<T>(registry: &Registry<T>) -> (r: Vec<String>)
    requires
        registry.wf(),
    ensures
        forall|k: Seq<char>| registry@.contains_key(k) <==> exists|i: int|
            0 <= i < r@.len() && (#[trigger] r@[i])@ == k,
        forall|i: int, j: int| 0 <= i < j < r@.len() ==> bytes_le(encode_utf8(r@[i]@), encode_utf8(r@[j]@)),
{
    let a = registry.addresses();
    let r = sorted_names(a);
    proof {
        a@.to_multiset_ensures();
        r@.to_multiset_ensures();
        assert forall|k: Seq<char>| registry@.contains_key(k) <==> exists|i: int|
            0 <= i < r@.len() && (#[trigger] r@[i])@ == k by {
            if registry@.contains_key(k) {
                let i = choose|i: int| 0 <= i < a@.len() && (#[trigger] a@[i])@ == k;
                assert(a@.contains(a@[i]));
                assert(r@.to_multiset().count(a@[i]) > 0);
                assert(r@.contains(a@[i]));
            }
            if exists|i: int| 0 <= i < r@.len() && (#[trigger] r@[i])@ == k {
                let i = choose|i: int| 0 <= i < r@.len() && (#[trigger] r@[i])@ == k;
                assert(r@.to_multiset().count(r@[i]) > 0);
                assert(a@.to_multiset().count(r@[i]) > 0);
                assert(a@.contains(r@[i]));
            }
        }
    }
    r
}

} // verus!
