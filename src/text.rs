use vstd::prelude::*;

verus! {

/// Character-wise equality of two strings.
pub fn text_eq(a: &str, b: &str) -> (r: bool)
    ensures
        r == (a@ == b@),
{
    let n = a.unicode_len();
    let m = b.unicode_len();
    if n != m {
        return false;
    }
    let mut i: usize = 0;
    while i < n
        invariant
            n == a@.len(),
            m == b@.len(),
            n == m,
            i <= n,
            a@.subrange(0, i as int) == b@.subrange(0, i as int),
        decreases n - i,
    {
        if a.get_char(i) != b.get_char(i) {
            return false;
        }
        assert(a@.subrange(0, i + 1) =~= a@.subrange(0, i as int).push(a@[i as int]));
        assert(b@.subrange(0, i + 1) =~= b@.subrange(0, i as int).push(b@[i as int]));
        i = i + 1;
    }
    assert(a@ =~= a@.subrange(0, n as int));
    assert(b@ =~= b@.subrange(0, n as int));
    true
}

/// A type name with its optional marker (a trailing `?`) removed, and whether it had one.
pub open spec fn strip_optional_spec(t: Seq<char>) -> (Seq<char>, bool) {
    if t.len() > 0 && t.last() == '?' {
        (t.drop_last(), true)
    } else {
        (t, false)
    }
}

/// Splits a field type name into its base type name and its optional flag.
pub fn strip_optional(t: &str) -> (r: (String, bool))
    ensures
        (r.0@, r.1) == strip_optional_spec(t@),
{
    let n = t.unicode_len();
    if n > 0 && t.get_char(n - 1) == '?' {
        let base = t.substring_char(0, n - 1);
        (String::from_str(base), true)
    } else {
        (String::from_str(t), false)
    }
}

/// A raw value made fit to stand between double quotes: line breaks are dropped
/// and each double quote is preceded by a backslash.
pub open spec fn escape_spec(s: Seq<char>) -> Seq<char>
    decreases s.len(),
{
    if s.len() == 0 {
        Seq::empty()
    } else {
        let prev = escape_spec(s.drop_last());
        let c = s.last();
        if c == '\n' {
            prev
        } else if c == '"' {
            prev + seq!['\\', '"']
        } else {
            prev.push(c)
        }
    }
}

/// The quoted form of a raw value.
pub open spec fn quote_spec(s: Seq<char>) -> Seq<char> {
    seq!['"'] + escape_spec(s) + seq!['"']
}

/// Appends the quoted form of `s` to `out`.
pub fn push_quoted(out: &mut String, s: &str)
    ensures
        final(out)@ == old(out)@ + quote_spec(s@),
{
    let ghost start = out@;
    proof {
        reveal_strlit("\"");
        reveal_strlit("\\\"");
    }
    out.append("\"");
    let n = s.unicode_len();
    let mut i: usize = 0;
    while i < n
        invariant
            n == s@.len(),
            i <= n,
            out@ == start + seq!['"'] + escape_spec(s@.subrange(0, i as int)),
        decreases n - i,
    {
        let c = s.get_char(i);
        let ghost pre = s@.subrange(0, i as int);
        assert(s@.subrange(0, i + 1).drop_last() =~= pre);
        assert(s@.subrange(0, i + 1).last() == c);
        let ghost before = out@;
        if c == '\n' {
        } else if c == '"' {
            out.append("\\\"");
            proof {
                reveal_strlit("\\\"");
            }
            assert("\\\""@ =~= seq!['\\', '"']);
        } else {
            let one = s.substring_char(i, i + 1);
            assert(one@ =~= seq![c]);
            out.append(one);
            assert(out@ =~= before.push(c));
        }
        assert(out@ =~= start + seq!['"'] + escape_spec(s@.subrange(0, i + 1)));
        i = i + 1;
    }
    assert(s@.subrange(0, n as int) =~= s@);
    out.append("\"");
    assert(out@ =~= start + quote_spec(s@));
}

} // verus!
