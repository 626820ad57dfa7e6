use vstd::prelude::*;
use crate::schema::{Field, TypeSchema};
use crate::text::{push_quoted, quote_spec, strip_optional, strip_optional_spec, text_eq};

verus! {

/// `"name":`, the key part of one JSON member.
pub open spec fn key_spec(name: Seq<char>) -> Seq<char> {
    seq!['"'] + name + seq!['"', ':']
}

/// The entries separated by commas, with no separator after the last.
pub open spec fn join_spec(es: Seq<Seq<char>>) -> Seq<char>
    decreases es.len(),
{
    if es.len() == 0 {
        Seq::empty()
    } else if es.len() == 1 {
        es[0]
    } else {
        join_spec(es.drop_last()) + seq![','] + es.last()
    }
}

/// A JSON object made of the given member entries.
pub open spec fn object_spec(es: Seq<Seq<char>>) -> Seq<char> {
    seq!['{'] + join_spec(es) + seq!['}']
}

/// The member entry of a scalar field `name` of type `ty` given the raw value `v`;
/// none when the field is optional and the value empty.
pub open spec fn leaf_entry_spec(schema: &TypeSchema, name: Seq<char>, ty: Seq<char>, v: Seq<char>) -> Option<Seq<char>> {
    let (base, optional) = strip_optional_spec(ty);
    if optional && v.len() == 0 {
        None
    } else if schema.resolve_spec(base) == "string"@ {
        Some(key_spec(name) + quote_spec(v))
    } else {
        Some(key_spec(name) + v)
    }
}

/// The members of the struct that field `f` refers to, if its base type is a declared struct.
pub open spec fn members_spec(schema: &TypeSchema, f: Field) -> Option<Seq<Field>> {
    schema.struct_spec(strip_optional_spec(f.ty@).0)
}

/// How many raw values field `f` takes: one per member of a non-empty struct, else one.
pub open spec fn width_spec(schema: &TypeSchema, f: Field) -> nat {
    match members_spec(schema, f) {
        Some(ms) => if ms.len() > 0 { ms.len() } else { 1 },
        None => 1,
    }
}

/// How many raw values a field list takes.
pub open spec fn total_width_spec(schema: &TypeSchema, fs: Seq<Field>) -> nat
    decreases fs.len(),
{
    if fs.len() == 0 {
        0
    } else {
        total_width_spec(schema, fs.drop_last()) + width_spec(schema, fs.last())
    }
}

/// The fields that values are asked for, in the order asked: the members of a
/// non-empty struct stand in place of the field that refers to it.
pub open spec fn prompts_spec(schema: &TypeSchema, fs: Seq<Field>) -> Seq<Field>
    decreases fs.len(),
{
    if fs.len() == 0 {
        Seq::empty()
    } else {
        let f = fs.last();
        let prev = prompts_spec(schema, fs.drop_last());
        match members_spec(schema, f) {
            Some(ms) => if ms.len() > 0 { prev + ms } else { prev.push(f) },
            None => prev.push(f),
        }
    }
}

/// The entries of scalar members `ms`, member `i` taking raw value `vs[i]`.
pub open spec fn leaf_entries_spec(schema: &TypeSchema, ms: Seq<Field>, vs: Seq<String>) -> Seq<Seq<char>>
    decreases ms.len(),
{
    if ms.len() == 0 {
        Seq::empty()
    } else {
        let prev = leaf_entries_spec(schema, ms.drop_last(), vs);
        let m = ms.last();
        match leaf_entry_spec(schema, m.name@, m.ty@, vs[ms.len() - 1]@) {
            Some(e) => prev.push(e),
            None => prev,
        }
    }
}

/// The entry of field `f` given the raw values `vs` it takes.
pub open spec fn field_entry_spec(schema: &TypeSchema, f: Field, vs: Seq<String>) -> Option<Seq<char>> {
    match members_spec(schema, f) {
        Some(ms) => if ms.len() > 0 {
            Some(key_spec(f.name@) + object_spec(leaf_entries_spec(schema, ms, vs)))
        } else if strip_optional_spec(f.ty@).1 && vs[0]@.len() == 0 {
            None
        } else {
            Some(key_spec(f.name@) + vs[0]@)
        },
        None => leaf_entry_spec(schema, f.name@, f.ty@, vs[0]@),
    }
}

/// The entries of a field list, each field taking the next raw values in order.
pub open spec fn entries_spec(schema: &TypeSchema, fs: Seq<Field>, values: Seq<String>) -> Seq<Seq<char>>
    decreases fs.len(),
{
    if fs.len() == 0 {
        Seq::empty()
    } else {
        let f = fs.last();
        let start = total_width_spec(schema, fs.drop_last()) as int;
        let prev = entries_spec(schema, fs.drop_last(), values);
        match field_entry_spec(schema, f, values.subrange(start, start + width_spec(schema, f))) {
            Some(e) => prev.push(e),
            None => prev,
        }
    }
}

/// The call payload: the fields' object, wrapped as `{"name":{...}}` for a tagged union.
pub open spec fn message_spec(
    schema: &TypeSchema,
    name: Seq<char>,
    fs: Seq<Field>,
    is_enum: bool,
    values: Seq<String>,
) -> Seq<char> {
    let body = object_spec(entries_spec(schema, fs, values));
    if is_enum {
        seq!['{'] + key_spec(name) + body + seq!['}']
    } else {
        body
    }
}

proof fn lemma_join_push(es: Seq<Seq<char>>, e: Seq<char>)
    ensures
        join_spec(es.push(e)) == (if es.len() == 0 {
            e
        } else {
            join_spec(es) + seq![','] + e
        }),
{
    assert(es.push(e).drop_last() =~= es);
}

/// A prefix of a field list takes no more values than the whole list.
pub proof fn lemma_width_prefix(schema: &TypeSchema, fs: Seq<Field>, i: int)
    requires
        0 <= i <= fs.len(),
    ensures
        total_width_spec(schema, fs.take(i)) <= total_width_spec(schema, fs),
    decreases fs.len(),
{
    if i < fs.len() {
        lemma_width_prefix(schema, fs.drop_last(), i);
        assert(fs.drop_last().take(i) =~= fs.take(i));
    } else {
        assert(fs.take(i) =~= fs);
    }
}

proof fn lemma_entries_step(schema: &TypeSchema, fs: Seq<Field>, values: Seq<String>, i: int)
    requires
        0 <= i < fs.len(),
    ensures
        total_width_spec(schema, fs.take(i + 1)) == total_width_spec(schema, fs.take(i))
            + width_spec(schema, fs[i]),
        entries_spec(schema, fs.take(i + 1), values) == ({
            let start = total_width_spec(schema, fs.take(i)) as int;
            let prev = entries_spec(schema, fs.take(i), values);
            match field_entry_spec(schema, fs[i], values.subrange(start, start + width_spec(schema, fs[i]))) {
                Some(e) => prev.push(e),
                None => prev,
            }
        }),
{
    assert(fs.take(i + 1).drop_last() =~= fs.take(i));
    assert(fs.take(i + 1).last() == fs[i]);
}

/// Appends one entry to a comma-separated list that already holds `count` entries.
fn push_entry(out: &mut String, count: &mut usize, e: &str)
    requires
        *old(count) < usize::MAX,
    ensures
        final(out)@ == (if *old(count) == 0 {
            old(out)@ + e@
        } else {
            old(out)@ + seq![','] + e@
        }),
        *final(count) == *old(count) + 1,
{
    if *count > 0 {
        out.append(",");
        proof {
            reveal_strlit(",");
        }
    }
    out.append(e);
    *count = *count + 1;
}

/// Appends `"name":` to `out`.
fn push_key(out: &mut String, name: &str)
    ensures
        final(out)@ == old(out)@ + key_spec(name@),
{
    out.append("\"");
    out.append(name);
    out.append("\":");
    proof {
        reveal_strlit("\"");
        reveal_strlit("\":");
    }
    assert(out@ =~= old(out)@ + key_spec(name@));
}

/// The entry of a scalar field, or none when an optional field is left empty.
pub fn leaf_entry(schema: &TypeSchema, name: &str, ty: &str, v: &str) -> (r: Option<String>)
    ensures
        match r {
            Some(e) => leaf_entry_spec(schema, name@, ty@, v@) == Some(e@),
            None => leaf_entry_spec(schema, name@, ty@, v@) is None,
        },
{
    let (base, optional) = strip_optional(ty);
    if optional && v.unicode_len() == 0 {
        return None;
    }
    let resolved = schema.resolve_base_type(base.as_str());
    let mut out = String::new();
    push_key(&mut out, name);
    if text_eq(resolved.as_str(), "string") {
        push_quoted(&mut out, v);
    } else {
        out.append(v);
    }
    assert(out@ =~= key_spec(name@) + quote_spec(v@) || out@ =~= key_spec(name@) + v@);
    Some(out)
}

/// One value is asked for each raw value that a field list takes.
pub proof fn lemma_prompts_len(schema: &TypeSchema, fs: Seq<Field>)
    ensures
        prompts_spec(schema, fs).len() == total_width_spec(schema, fs),
    decreases fs.len(),
{
    if fs.len() > 0 {
        lemma_prompts_len(schema, fs.drop_last());
    }
}

/// The fields that values are asked for, in the order in which they are asked.
pub fn prompts(schema: &TypeSchema, fields: &Vec<Field>) -> (r: Vec<Field>)
    ensures
        r@ == prompts_spec(schema, fields@),
        r@.len() == total_width_spec(schema, fields@),
{
    proof {
        lemma_prompts_len(schema, fields@);
    }
    let mut r: Vec<Field> = Vec::new();
    let mut i: usize = 0;
    while i < fields.len()
        invariant
            i <= fields@.len(),
            r@ == prompts_spec(schema, fields@.take(i as int)),
        decreases fields@.len() - i,
    {
        let f = &fields[i];
        assert(fields@.take(i + 1).drop_last() =~= fields@.take(i as int));
        assert(fields@.take(i + 1).last() == *f);
        let (base, _) = strip_optional(f.ty.as_str());
        let nested = match schema.lookup_struct(base.as_str()) {
            Some(ms) => if ms.len() > 0 { Some(ms) } else { None },
            None => None,
        };
        match nested {
            Some(ms) => {
                let ghost before = r@;
                let mut j: usize = 0;
                while j < ms.len()
                    invariant
                        j <= ms@.len(),
                        r@ == before + ms@.take(j as int),
                    decreases ms@.len() - j,
                {
                    let m = Field { name: ms[j].name.clone(), ty: ms[j].ty.clone() };
                    r.push(m);
                    assert(ms@.take(j + 1) =~= ms@.take(j as int).push(ms@[j as int]));
                    j = j + 1;
                }
                assert(ms@.take(ms@.len() as int) =~= ms@);
            },
            None => {
                let m = Field { name: f.name.clone(), ty: f.ty.clone() };
                r.push(m);
            },
        }
        i = i + 1;
    }
    assert(fields@.take(fields@.len() as int) =~= fields@);
    r
}

/// The entries of scalar members `ms`, member `i` taking raw value `values[start + i]`,
/// as a JSON object.
fn members_object(schema: &TypeSchema, ms: &Vec<Field>, values: &Vec<String>, start: usize) -> (r: String)
    requires
        start + ms@.len() <= values@.len(),
    ensures
        r@ == object_spec(
            leaf_entries_spec(schema, ms@, values@.subrange(start as int, start + ms@.len())),
        ),
{
    let ghost vs = values@.subrange(start as int, start + ms@.len());
    let vlen = values.len();
    let mut out = String::from_str("{");
    proof {
        reveal_strlit("{");
        reveal_strlit("}");
    }
    let mut count: usize = 0;
    let mut j: usize = 0;
    while j < ms.len()
        invariant
            j <= ms@.len(),
            start + ms@.len() <= values@.len(),
            values@.len() == vlen,
            vs == values@.subrange(start as int, start + ms@.len()),
            count == leaf_entries_spec(schema, ms@.take(j as int), vs).len(),
            count <= j,
            out@ == seq!['{'] + join_spec(leaf_entries_spec(schema, ms@.take(j as int), vs)),
        decreases ms@.len() - j,
    {
        let ghost es = leaf_entries_spec(schema, ms@.take(j as int), vs);
        assert(ms@.take(j + 1).drop_last() =~= ms@.take(j as int));
        assert(ms@.take(j + 1).last() == ms@[j as int]);
        assert(vs[j as int] == values@[start + j]);
        match leaf_entry(schema, ms[j].name.as_str(), ms[j].ty.as_str(), values[start + j].as_str()) {
            Some(e) => {
                proof {
                    lemma_join_push(es, e@);
                }
                push_entry(&mut out, &mut count, e.as_str());
            },
            None => {},
        }
        j = j + 1;
    }
    assert(ms@.take(ms@.len() as int) =~= ms@);
    out.append("}");
    out
}

/// The entry of field `f`, which takes the raw values from `values[start]` on.
pub fn field_entry(schema: &TypeSchema, f: &Field, values: &Vec<String>, start: usize) -> (r: Option<String>)
    requires
        start + width_spec(schema, *f) <= values@.len(),
    ensures
        match r {
            Some(e) => field_entry_spec(
                schema,
                *f,
                values@.subrange(start as int, start + width_spec(schema, *f)),
            ) == Some(e@),
            None => field_entry_spec(
                schema,
                *f,
                values@.subrange(start as int, start + width_spec(schema, *f)),
            ) is None,
        },
{
    let ghost vs = values@.subrange(start as int, start + width_spec(schema, *f));
    let (base, optional) = strip_optional(f.ty.as_str());
    match schema.lookup_struct(base.as_str()) {
        Some(ms) => {
            if ms.len() == 0 && optional && values[start].unicode_len() == 0 {
                assert(vs[0] == values@[start as int]);
                return None;
            }
            let mut out = String::new();
            push_key(&mut out, f.name.as_str());
            if ms.len() > 0 {
                let obj = members_object(schema, ms, values, start);
                out.append(obj.as_str());
            } else {
                assert(vs[0] == values@[start as int]);
                out.append(values[start].as_str());
            }
            Some(out)
        },
        None => {
            assert(vs[0] == values@[start as int]);
            leaf_entry(schema, f.name.as_str(), f.ty.as_str(), values[start].as_str())
        },
    }
}

/// Builds the call payload for variant `name` with fields `fields`, the raw values
/// being those asked for by `prompts`, in that order. A tagged union wraps the
/// fields' object as `{"name":{...}}`.
pub fn build_message(
    schema: &TypeSchema,
    name: &str,
    fields: &Vec<Field>,
    is_enum: bool,
    values: &Vec<String>,
) -> (r: String)
    requires
        values@.len() == total_width_spec(schema, fields@),
    ensures
        r@ == message_spec(schema, name@, fields@, is_enum, values@),
{
    let mut out = String::new();
    proof {
        reveal_strlit("{");
        reveal_strlit("}");
    }
    if is_enum {
        out.append("{");
        push_key(&mut out, name);
    }
    let ghost prefix = out@;
    let vlen = values.len();
    out.append("{");
    let mut count: usize = 0;
    let mut cursor: usize = 0;
    let mut i: usize = 0;
    while i < fields.len()
        invariant
            i <= fields@.len(),
            values@.len() == total_width_spec(schema, fields@),
            values@.len() == vlen,
            cursor == total_width_spec(schema, fields@.take(i as int)),
            count == entries_spec(schema, fields@.take(i as int), values@).len(),
            count <= i,
            out@ == prefix + seq!['{'] + join_spec(entries_spec(schema, fields@.take(i as int), values@)),
        decreases fields@.len() - i,
    {
        let ghost es = entries_spec(schema, fields@.take(i as int), values@);
        proof {
            lemma_entries_step(schema, fields@, values@, i as int);
            lemma_width_prefix(schema, fields@, i + 1);
        }
        let f = &fields[i];
        match field_entry(schema, f, values, cursor) {
            Some(e) => {
                proof {
                    lemma_join_push(es, e@);
                }
                push_entry(&mut out, &mut count, e.as_str());
            },
            None => {},
        }
        let (base, _) = strip_optional(f.ty.as_str());
        let w: usize = match schema.lookup_struct(base.as_str()) {
            Some(ms) => if ms.len() > 0 { ms.len() } else { 1 },
            None => 1,
        };
        assert(w == width_spec(schema, fields@[i as int]));
        cursor = cursor + w;
        i = i + 1;
    }
    assert(fields@.take(fields@.len() as int) =~= fields@);
    out.append("}");
    if is_enum {
        out.append("}");
    }
    out
}

proof fn lemma_width_concat(schema: &TypeSchema, x: Seq<Field>, y: Seq<Field>)
    ensures
        total_width_spec(schema, x + y) == total_width_spec(schema, x) + total_width_spec(schema, y),
    decreases y.len(),
{
    if y.len() == 0 {
        assert(x + y =~= x);
    } else {
        assert((x + y).drop_last() =~= x + y.drop_last());
        assert((x + y).last() == y.last());
        lemma_width_concat(schema, x, y.drop_last());
    }
}

/// The entries of a field list read only the values that the list takes.
proof fn lemma_entries_frame(schema: &TypeSchema, fs: Seq<Field>, x: Seq<String>, y: Seq<String>)
    requires
        total_width_spec(schema, fs) <= x.len(),
        total_width_spec(schema, fs) <= y.len(),
        x.take(total_width_spec(schema, fs) as int) == y.take(total_width_spec(schema, fs) as int),
    ensures
        entries_spec(schema, fs, x) == entries_spec(schema, fs, y),
    decreases fs.len(),
{
    if fs.len() > 0 {
        let t = total_width_spec(schema, fs) as int;
        let fs2 = fs.drop_last();
        let t2 = total_width_spec(schema, fs2) as int;
        let w = width_spec(schema, fs.last()) as int;
        assert(x.take(t2) =~= x.take(t).take(t2));
        assert(y.take(t2) =~= y.take(t).take(t2));
        lemma_entries_frame(schema, fs2, x, y);
        assert(x.subrange(t2, t2 + w) =~= x.take(t).subrange(t2, t2 + w));
        assert(y.subrange(t2, t2 + w) =~= y.take(t).subrange(t2, t2 + w));
    }
}

/// A scalar field (one that refers to no struct, or to a struct with no fields)
/// that is optional and whose raw value is empty.
pub open spec fn is_blank_optional(schema: &TypeSchema, f: Field, v: String) -> bool {
    &&& match members_spec(schema, f) {
        Some(ms) => ms.len() == 0,
        None => true,
    }
    &&& strip_optional_spec(f.ty@).1
    &&& v@.len() == 0
}

proof fn lemma_blank_entries(
    schema: &TypeSchema,
    a: Seq<Field>,
    f: Field,
    b: Seq<Field>,
    va: Seq<String>,
    v: String,
    vb: Seq<String>,
)
    requires
        is_blank_optional(schema, f, v),
        va.len() == total_width_spec(schema, a),
        vb.len() == total_width_spec(schema, b),
    ensures
        entries_spec(schema, a + seq![f] + b, va + seq![v] + vb) == entries_spec(
            schema,
            a + b,
            va + vb,
        ),
    decreases b.len(),
{
    let af = a + seq![f];
    assert(af.drop_last() =~= a);
    assert(af.last() == f);
    let v1 = va + seq![v] + vb;
    let v2 = va + vb;
    let ta = total_width_spec(schema, a) as int;
    if b.len() == 0 {
        assert(af + b =~= af);
        assert(a + b =~= a);
        assert(v2 =~= va);
        assert(v1.subrange(ta, ta + 1)[0] == v);
        assert(v1.take(ta) =~= va.take(ta));
        lemma_entries_frame(schema, a, v1, va);
    } else {
        let b2 = b.drop_last();
        let g = b.last();
        let w = width_spec(schema, g) as int;
        let vb2 = vb.take(total_width_spec(schema, b2) as int);
        let tb2 = total_width_spec(schema, b2) as int;
        assert((af + b).drop_last() =~= af + b2);
        assert((af + b).last() == g);
        assert((a + b).drop_last() =~= a + b2);
        assert((a + b).last() == g);
        lemma_width_concat(schema, af, b2);
        lemma_width_concat(schema, a, b2);
        assert(v1.subrange(ta + 1 + tb2, ta + 1 + tb2 + w) =~= v2.subrange(ta + tb2, ta + tb2 + w));
        lemma_blank_entries(schema, a, f, b2, va, v, vb2);
        let u1 = va + seq![v] + vb2;
        let u2 = va + vb2;
        assert(v1.take(ta + 1 + tb2) =~= u1.take(ta + 1 + tb2));
        lemma_entries_frame(schema, af + b2, v1, u1);
        assert(v2.take(ta + tb2) =~= u2.take(ta + tb2));
        lemma_entries_frame(schema, a + b2, v2, u2);
    }
}

/// Leaving an optional scalar field blank gives the payload that the field list
/// without that field gives: the field and its separator are both left out.
pub proof fn lemma_blank_optional_omitted(
    schema: &TypeSchema,
    name: Seq<char>,
    is_enum: bool,
    a: Seq<Field>,
    f: Field,
    b: Seq<Field>,
    va: Seq<String>,
    v: String,
    vb: Seq<String>,
)
    requires
        is_blank_optional(schema, f, v),
        va.len() == total_width_spec(schema, a),
        vb.len() == total_width_spec(schema, b),
    ensures
        message_spec(schema, name, a + seq![f] + b, is_enum, va + seq![v] + vb) == message_spec(
            schema,
            name,
            a + b,
            is_enum,
            va + vb,
        ),
{
    lemma_blank_entries(schema, a, f, b, va, v, vb);
}

/// Where no optional scalar field is left blank, each field gives exactly one
/// entry, in declared order, each beginning with that field's key; the entries are
/// joined with no separator after the last.
pub proof fn lemma_each_field_once(schema: &TypeSchema, fs: Seq<Field>, values: Seq<String>)
    requires
        values.len() >= total_width_spec(schema, fs),
        forall|i: int| 0 <= i < fs.len() ==> !is_blank_optional(
            schema,
            #[trigger] fs[i],
            values[total_width_spec(schema, fs.take(i)) as int],
        ),
    ensures
        entries_spec(schema, fs, values).len() == fs.len(),
        forall|i: int|
            0 <= i < fs.len() ==> (#[trigger] entries_spec(schema, fs, values)[i]).take(
                key_spec(fs[i].name@).len() as int,
            ) == key_spec(fs[i].name@),
        message_spec(schema, Seq::empty(), fs, false, values) == object_spec(
            entries_spec(schema, fs, values),
        ),
    decreases fs.len(),
{
    if fs.len() > 0 {
        let fs2 = fs.drop_last();
        let n = fs.len() - 1;
        assert forall|i: int| 0 <= i < fs2.len() implies !is_blank_optional(
            schema,
            #[trigger] fs2[i],
            values[total_width_spec(schema, fs2.take(i)) as int],
        ) by {
            assert(fs2[i] == fs[i]);
            assert(fs2.take(i) =~= fs.take(i));
        }
        lemma_each_field_once(schema, fs2, values);
        let f = fs.last();
        assert(fs.take(n) =~= fs2);
        assert(!is_blank_optional(schema, fs[n], values[total_width_spec(schema, fs.take(n)) as int]));
        let es = entries_spec(schema, fs, values);
        let k = key_spec(f.name@);
        assert forall|i: int| 0 <= i < fs.len() implies (#[trigger] es[i]).take(
            key_spec(fs[i].name@).len() as int,
        ) == key_spec(fs[i].name@) by {
            if i == n {
                let e = es[i];
                assert(e.take(k.len() as int) =~= k);
            } else {
                assert(fs2[i] == fs[i]);
            }
        }
    }
}

/// Where no optional member is left blank, a struct's nested object holds exactly
/// one entry per member, in declared order, joined with no separator after the last.
pub proof fn lemma_each_member_once(schema: &TypeSchema, ms: Seq<Field>, vs: Seq<String>)
    requires
        forall|i: int| 0 <= i < ms.len() ==> !(strip_optional_spec((#[trigger] ms[i]).ty@).1 && vs[i]@.len() == 0),
    ensures
        leaf_entries_spec(schema, ms, vs).len() == ms.len(),
        forall|i: int|
            0 <= i < ms.len() ==> (#[trigger] leaf_entries_spec(schema, ms, vs)[i]).take(
                key_spec(ms[i].name@).len() as int,
            ) == key_spec(ms[i].name@),
    decreases ms.len(),
{
    if ms.len() > 0 {
        let ms2 = ms.drop_last();
        assert forall|i: int| 0 <= i < ms2.len() implies !(strip_optional_spec(
            (#[trigger] ms2[i]).ty@,
        ).1 && vs[i]@.len() == 0) by {
            assert(ms2[i] == ms[i]);
        }
        lemma_each_member_once(schema, ms2, vs);
        let m = ms.last();
        assert(!(strip_optional_spec(ms[ms.len() - 1].ty@).1 && vs[ms.len() - 1]@.len() == 0));
        let es = leaf_entries_spec(schema, ms, vs);
        let k = key_spec(m.name@);
        assert forall|i: int| 0 <= i < ms.len() implies (#[trigger] es[i]).take(
            key_spec(ms[i].name@).len() as int,
        ) == key_spec(ms[i].name@) by {
            if i == ms.len() - 1 {
                let e = es[i];
                assert(e.take(k.len() as int) =~= k);
            } else {
                assert(ms2[i] == ms[i]);
            }
        }
    }
}

/// A tagged union's payload is `{"name":{...}}`; any other payload is the
/// fields' object itself, `{...}`.
pub proof fn lemma_payload_shape(
    schema: &TypeSchema,
    name: Seq<char>,
    fs: Seq<Field>,
    is_enum: bool,
    values: Seq<String>,
)
    ensures
        ({
            let m = message_spec(schema, name, fs, is_enum, values);
            let head = seq!['{'] + key_spec(name) + seq!['{'];
            if is_enum {
                m.take(head.len() as int) == head && m.len() >= head.len() + 2
                    && m.skip(m.len() - 2) == seq!['}', '}']
            } else {
                m.len() >= 2 && m[0] == '{' && m.last() == '}'
            }
        }),
{
    let m = message_spec(schema, name, fs, is_enum, values);
    let head = seq!['{'] + key_spec(name) + seq!['{'];
    if is_enum {
        assert(m.take(head.len() as int) =~= head);
        assert(m.skip(m.len() - 2) =~= seq!['}', '}']);
    }
}

/// A tagged union's payload is the plain payload of the same fields and values,
/// wrapped as the only member of an object keyed by the variant's name.
pub proof fn lemma_enum_wraps_plain(
    schema: &TypeSchema,
    name: Seq<char>,
    fs: Seq<Field>,
    values: Seq<String>,
)
    ensures
        message_spec(schema, name, fs, true, values) == seq!['{'] + key_spec(name)
            + message_spec(schema, name, fs, false, values) + seq!['}'],
{
}

/// A variant with no fields of a tagged union gives `{"name":{}}`.
pub proof fn lemma_no_field_variant(schema: &TypeSchema, name: Seq<char>, values: Seq<String>)
    ensures
        message_spec(schema, name, Seq::empty(), true, values) == seq!['{'] + key_spec(name) + seq![
            '{',
            '}',
            '}',
        ],
{
    assert(message_spec(schema, name, Seq::empty(), true, values) =~= seq!['{'] + key_spec(name)
        + seq!['{', '}', '}']);
}

/// Builds the payload of `variant` of the message group `group`: the group's enum
/// flag, false where none is recorded, decides whether it is wrapped.
pub fn build_variant_message(
    schema: &TypeSchema,
    group: &str,
    variant: &(String, Vec<Field>),
    values: &Vec<String>,
) -> (r: String)
    requires
        values@.len() == total_width_spec(schema, variant.1@),
    ensures
        r@ == message_spec(schema, variant.0@, variant.1@, schema.is_enum_spec(group@), values@),
{
    let is_enum = schema.is_enum(group);
    build_message(schema, variant.0.as_str(), &variant.1, is_enum, values)
}

/// A struct member that is optional and whose raw value is empty.
pub open spec fn is_blank_optional_member(m: Field, v: String) -> bool {
    strip_optional_spec(m.ty@).1 && v@.len() == 0
}

/// Inside a nested object, leaving an optional member blank gives the object of the
/// member list without it: the member and its separator are both left out.
pub proof fn lemma_blank_member_omitted(
    schema: &TypeSchema,
    a: Seq<Field>,
    m: Field,
    b: Seq<Field>,
    va: Seq<String>,
    v: String,
    vb: Seq<String>,
)
    requires
        is_blank_optional_member(m, v),
        va.len() == a.len(),
        vb.len() == b.len(),
    ensures
        leaf_entries_spec(schema, a + seq![m] + b, va + seq![v] + vb) == leaf_entries_spec(
            schema,
            a + b,
            va + vb,
        ),
    decreases b.len(),
{
    let am = a + seq![m];
    let v1 = va + seq![v] + vb;
    let v2 = va + vb;
    assert(am.drop_last() =~= a);
    if b.len() == 0 {
        assert(am + b =~= am);
        assert(a + b =~= a);
        assert(v2 =~= va);
        lemma_member_frame(schema, a, v1, va);
    } else {
        let b2 = b.drop_last();
        let vb2 = vb.drop_last();
        assert((am + b).drop_last() =~= am + b2);
        assert((a + b).drop_last() =~= a + b2);
        assert((am + b).last() == b.last());
        assert((a + b).last() == b.last());
        assert(v1[(am + b).len() - 1] == v2[(a + b).len() - 1]);
        lemma_blank_member_omitted(schema, a, m, b2, va, v, vb2);
        lemma_member_frame(schema, am + b2, v1, va + seq![v] + vb2);
        lemma_member_frame(schema, a + b2, v2, va + vb2);
    }
}

/// The entries of members read only the values at the members' own positions.
proof fn lemma_member_frame(schema: &TypeSchema, ms: Seq<Field>, x: Seq<String>, y: Seq<String>)
    requires
        ms.len() <= x.len(),
        ms.len() <= y.len(),
        forall|i: int| 0 <= i < ms.len() ==> x[i] == y[i],
    ensures
        leaf_entries_spec(schema, ms, x) == leaf_entries_spec(schema, ms, y),
    decreases ms.len(),
{
    if ms.len() > 0 {
        lemma_member_frame(schema, ms.drop_last(), x, y);
    }
}

/// A struct whose members are all optional and all left blank gives `{}`.
pub proof fn lemma_all_members_blank(schema: &TypeSchema, ms: Seq<Field>, vs: Seq<String>)
    requires
        vs.len() == ms.len(),
        forall|i: int| 0 <= i < ms.len() ==> is_blank_optional_member(#[trigger] ms[i], vs[i]),
    ensures
        leaf_entries_spec(schema, ms, vs).len() == 0,
        object_spec(leaf_entries_spec(schema, ms, vs)) == seq!['{', '}'],
    decreases ms.len(),
{
    if ms.len() > 0 {
        let ms2 = ms.drop_last();
        assert forall|i: int| 0 <= i < ms2.len() implies is_blank_optional_member(
            #[trigger] ms2[i],
            vs.drop_last()[i],
        ) by {
            assert(ms2[i] == ms[i]);
        }
        lemma_all_members_blank(schema, ms2, vs.drop_last());
        lemma_member_frame(schema, ms2, vs, vs.drop_last());
        assert(is_blank_optional_member(ms[ms.len() - 1], vs[ms.len() - 1]));
    }
    assert(object_spec(leaf_entries_spec(schema, ms, vs)) =~= seq!['{', '}']);
}

/// Where every field is an optional scalar left blank, the payload is `{}`, or
/// `{"name":{}}` for a tagged union.
pub proof fn lemma_all_fields_blank(
    schema: &TypeSchema,
    name: Seq<char>,
    fs: Seq<Field>,
    values: Seq<String>,
)
    requires
        values.len() >= total_width_spec(schema, fs),
        forall|i: int| 0 <= i < fs.len() ==> is_blank_optional(
            schema,
            #[trigger] fs[i],
            values[total_width_spec(schema, fs.take(i)) as int],
        ),
    ensures
        entries_spec(schema, fs, values).len() == 0,
        message_spec(schema, name, fs, false, values) == seq!['{', '}'],
        message_spec(schema, name, fs, true, values) == seq!['{'] + key_spec(name) + seq!['{', '}', '}'],
    decreases fs.len(),
{
    if fs.len() > 0 {
        let fs2 = fs.drop_last();
        let n = fs.len() - 1;
        assert forall|i: int| 0 <= i < fs2.len() implies is_blank_optional(
            schema,
            #[trigger] fs2[i],
            values[total_width_spec(schema, fs2.take(i)) as int],
        ) by {
            assert(fs2[i] == fs[i]);
            assert(fs2.take(i) =~= fs.take(i));
        }
        lemma_all_fields_blank(schema, name, fs2, values);
        assert(fs.take(n) =~= fs2);
        assert(is_blank_optional(schema, fs[n], values[total_width_spec(schema, fs.take(n)) as int]));
    }
    assert(message_spec(schema, name, fs, false, values) =~= seq!['{', '}']);
    assert(message_spec(schema, name, fs, true, values) =~= seq!['{'] + key_spec(name) + seq![
        '{',
        '}',
        '}',
    ]);
}

proof fn lemma_join_first(es: Seq<Seq<char>>)
    requires
        es.len() > 0,
        es[0].len() > 0,
    ensures
        join_spec(es).len() > 0,
        join_spec(es)[0] == es[0][0],
    decreases es.len(),
{
    if es.len() > 1 {
        assert(es.drop_last()[0] == es[0]);
        lemma_join_first(es.drop_last());
    }
}

/// In an object of non-empty entries, the character after the opening brace is the
/// first entry's first character and the one before the closing brace is the last
/// entry's last character: no separator stands next to either brace. Each entry the
/// builder makes begins with its key, so a double quote follows the opening brace.
pub proof fn lemma_object_edges(es: Seq<Seq<char>>)
    requires
        es.len() > 0,
        forall|i: int| 0 <= i < es.len() ==> (#[trigger] es[i]).len() > 0,
    ensures
        object_spec(es)[1] == es[0][0],
        object_spec(es)[object_spec(es).len() - 2] == es.last().last(),
{
    assert(es[0].len() > 0);
    assert(es[es.len() - 1].len() > 0);
    lemma_join_first(es);
}

} // verus!
