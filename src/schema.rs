use vstd::prelude::*;
use crate::text::text_eq;

verus! {

/// One declared field: its name and its type name (which may end in `?`).
#[derive(Clone, Debug)]
pub struct Field {
    pub name: String,
    pub ty: String,
}

impl Field {
    pub fn new(name: &str, ty: &str) -> (r: Field)
        ensures
            r.name@ == name@,
            r.ty@ == ty@,
    {
        Field { name: String::from_str(name), ty: String::from_str(ty) }
    }
}

/// The value bound to the first entry whose key is `k`, if any.
pub open spec fn lookup<V>(s: Seq<(String, V)>, k: Seq<char>) -> Option<V>
    decreases s.len(),
{
    if s.len() == 0 {
        None
    } else if s[0].0@ == k {
        Some(s[0].1)
    } else {
        lookup(s.drop_first(), k)
    }
}

/// No two entries share a key.
pub open spec fn keys_unique<V>(s: Seq<(String, V)>) -> bool {
    forall|i: int, j: int| 0 <= i < j < s.len() ==> s[i].0@ != s[j].0@
}

proof fn lemma_lookup_skip<V>(s: Seq<(String, V)>, k: Seq<char>, i: int)
    requires
        0 <= i < s.len(),
    ensures
        lookup(s.skip(i), k) == (if s[i].0@ == k {
            Some(s[i].1)
        } else {
            lookup(s.skip(i + 1), k)
        }),
{
    assert(s.skip(i).drop_first() =~= s.skip(i + 1));
}

/// Position of the first entry whose key is `k`.
pub fn find_key<V>(s: &Vec<(String, V)>, k: &str) -> (r: Option<usize>)
    ensures
        match r {
            Some(i) => i < s@.len() && s@[i as int].0@ == k@ && lookup(s@, k@) == Some(
                s@[i as int].1,
            ),
            None => lookup(s@, k@) is None,
        },
{
    let mut i: usize = 0;
    assert(s@.skip(0) =~= s@);
    while i < s.len()
        invariant
            i <= s@.len(),
            lookup(s@, k@) == lookup(s@.skip(i as int), k@),
        decreases s@.len() - i,
    {
        proof {
            lemma_lookup_skip(s@, k@, i as int);
        }
        if text_eq(s[i].0.as_str(), k) {
            return Some(i);
        }
        i = i + 1;
    }
    None
}

/// The declared message types of one contract module.
#[derive(Clone, Debug)]
pub struct TypeSchema {
    /// Alias name to primitive type name.
    pub base_aliases: Vec<(String, String)>,
    /// Struct type name to its fields, in declared order.
    pub structs: Vec<(String, Vec<Field>)>,
    /// Message group name to whether it is a tagged union.
    pub enum_flags: Vec<(String, bool)>,
    /// Message group name to its variants, each with its fields in declared order.
    pub groups: Vec<(String, Vec<(String, Vec<Field>)>)>,
}

impl TypeSchema {
    /// The primitive type that `name` resolves to: its alias target, or itself.
    pub open spec fn resolve_spec(&self, name: Seq<char>) -> Seq<char> {
        match lookup(self.base_aliases@, name) {
            Some(v) => v@,
            None => name,
        }
    }

    /// The fields of the struct type `name`, if it is declared.
    pub open spec fn struct_spec(&self, name: Seq<char>) -> Option<Seq<Field>> {
        match lookup(self.structs@, name) {
            Some(v) => Some(v@),
            None => None,
        }
    }

    /// Whether the group `name` is a tagged union; false when not recorded.
    pub open spec fn is_enum_spec(&self, name: Seq<char>) -> bool {
        match lookup(self.enum_flags@, name) {
            Some(b) => b,
            None => false,
        }
    }

    /// A schema with nothing declared.
    pub fn empty() -> (r: TypeSchema)
        ensures
            r.base_aliases@.len() == 0,
            r.structs@.len() == 0,
            r.enum_flags@.len() == 0,
            r.groups@.len() == 0,
    {
        TypeSchema { base_aliases: Vec::new(), structs: Vec::new(), enum_flags: Vec::new(), groups: Vec::new() }
    }

    /// Whether no message group is declared, in which case calls are entered as raw JSON.
    pub fn is_raw_json_mode(&self) -> (r: bool)
        ensures
            r == (self.groups@.len() == 0),
    {
        self.groups.len() == 0
    }

    /// The primitive type name that `name` stands for.
    pub fn resolve_base_type(&self, name: &str) -> (r: String)
        ensures
            r@ == self.resolve_spec(name@),
    {
        match find_key(&self.base_aliases, name) {
            Some(i) => self.base_aliases[i].1.clone(),
            None => String::from_str(name),
        }
    }

    /// The fields of the struct type `name`, in declared order.
    pub fn lookup_struct(&self, name: &str) -> (r: Option<&Vec<Field>>)
        ensures
            match r {
                Some(v) => self.struct_spec(name@) == Some(v@),
                None => self.struct_spec(name@) is None,
            },
    {
        match find_key(&self.structs, name) {
            Some(i) => Some(&self.structs[i].1),
            None => None,
        }
    }

    /// Whether the message group `name` is a tagged union.
    pub fn is_enum(&self, name: &str) -> (r: bool)
        ensures
            r == self.is_enum_spec(name@),
    {
        match find_key(&self.enum_flags, name) {
            Some(i) => self.enum_flags[i].1,
            None => false,
        }
    }

    /// The variants of the message group `name`.
    pub fn lookup_message_group(&self, name: &str) -> (r: Option<&Vec<(String, Vec<Field>)>>)
        ensures
            match r {
                Some(v) => lookup(self.groups@, name@) == Some(*v),
                None => lookup(self.groups@, name@) is None,
            },
    {
        match find_key(&self.groups, name) {
            Some(i) => Some(&self.groups[i].1),
            None => None,
        }
    }
}

} // verus!
