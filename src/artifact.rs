use vstd::prelude::*;
use crate::text::text_eq;

verus! {

/// Why an artifact path was refused.
#[derive(PartialEq, Eq, Structural, Clone, Copy, Debug)]
pub enum LoadError {
    /// The path does not end in `.wasm`.
    NotWasm,
}

/// The position of the last `/` in `p`, if any.
pub open spec fn last_slash_spec(p: Seq<char>) -> Option<int>
    decreases p.len(),
{
    if p.len() == 0 {
        None
    } else if p.last() == '/' {
        Some(p.len() - 1)
    } else {
        last_slash_spec(p.drop_last())
    }
}

/// The directory part of `p`: what stands before its last `/`.
pub open spec fn parent_spec(p: Seq<char>) -> Option<Seq<char>> {
    match last_slash_spec(p) {
        Some(i) => Some(p.take(i)),
        None => None,
    }
}

/// The file name part of `p`: what follows its last `/`.
pub open spec fn file_name_spec(p: Seq<char>) -> Seq<char> {
    match last_slash_spec(p) {
        Some(i) => p.skip(i + 1),
        None => p,
    }
}

/// Whether `p` ends in `.wasm`.
pub open spec fn is_wasm_spec(p: Seq<char>) -> bool {
    p.len() >= 5 && p.skip(p.len() - 5) == ".wasm"@
}

/// The contract address of an artifact: the stem of its file name, that is the
/// name without `.wasm`, or `.wasm` itself for a file named only that.
pub open spec fn address_spec(p: Seq<char>) -> Result<Seq<char>, LoadError> {
    if !is_wasm_spec(p) {
        Err(LoadError::NotWasm)
    } else {
        let n = file_name_spec(p);
        if n.len() <= 5 {
            Ok(n)
        } else {
            Ok(n.take(n.len() - 5))
        }
    }
}

proof fn lemma_last_slash_bounds(p: Seq<char>)
    ensures
        match last_slash_spec(p) {
            Some(i) => 0 <= i < p.len() && p[i] == '/' && forall|j: int| i < j < p.len() ==> p[j] != '/',
            None => forall|j: int| 0 <= j < p.len() ==> p[j] != '/',
        },
    decreases p.len(),
{
    if p.len() > 0 && p.last() != '/' {
        let q = p.drop_last();
        lemma_last_slash_bounds(q);
        assert forall|j: int| 0 <= j < q.len() implies q[j] == p[j] by {}
    }
}

/// Finds the last `/` of `p`.
pub fn last_slash(p: &str) -> (r: Option<usize>)
    ensures
        match r {
            Some(i) => last_slash_spec(p@) == Some(i as int),
            None => last_slash_spec(p@) is None,
        },
{
    let n = p.unicode_len();
    let mut i: usize = n;
    assert(p@.take(n as int) =~= p@);
    while i > 0
        invariant
            i <= n,
            n == p@.len(),
            last_slash_spec(p@) == last_slash_spec(p@.take(i as int)),
        decreases i,
    {
        assert(p@.take(i as int).drop_last() =~= p@.take(i - 1));
        if p.get_char(i - 1) == '/' {
            return Some(i - 1);
        }
        i = i - 1;
    }
    assert(p@.take(0) =~= Seq::<char>::empty());
    None
}

/// The directory part of an artifact path, where it has one.
pub fn parent_dir(p: &str) -> (r: Option<String>)
    ensures
        match r {
            Some(d) => parent_spec(p@) == Some(d@),
            None => parent_spec(p@) is None,
        },
{
    proof {
        lemma_last_slash_bounds(p@);
    }
    match last_slash(p) {
        Some(i) => Some(String::from_str(p.substring_char(0, i))),
        None => None,
    }
}

/// The contract address that an artifact path names.
pub fn artifact_address(p: &str) -> (r: Result<String, LoadError>)
    ensures
        match r {
            Ok(a) => address_spec(p@) == Ok::<Seq<char>, LoadError>(a@),
            Err(e) => address_spec(p@) == Err::<Seq<char>, LoadError>(e),
        },
{
    let n = p.unicode_len();
    if n < 5 || !text_eq(p.substring_char(n - 5, n), ".wasm") {
        return Err(LoadError::NotWasm);
    }
    proof {
        lemma_last_slash_bounds(p@);
    }
    let start: usize = match last_slash(p) {
        Some(i) => i + 1,
        None => 0,
    };
    assert(file_name_spec(p@) =~= p@.skip(start as int));
    if n - start <= 5 {
        return Ok(String::from_str(p.substring_char(start, n)));
    }
    let a = p.substring_char(start, n - 5);
    assert(a@ =~= file_name_spec(p@).take(file_name_spec(p@).len() - 5));
    Ok(String::from_str(a))
}

/// The path of the artifact of contract `name` in the companion folder `folder`
/// beside the main artifact's directory `parent`: `parent/folder/name/name.wasm`.
pub fn companion_artifact(parent: &str, folder: &str, name: &str) -> (r: String)
    ensures
        r@ == parent@ + "/"@ + folder@ + "/"@ + name@ + "/"@ + name@ + ".wasm"@,
{
    let mut r = String::from_str(parent);
    r.append("/");
    r.append(folder);
    r.append("/");
    r.append(name);
    r.append("/");
    r.append(name);
    r.append(".wasm");
    r
}

} // verus!
