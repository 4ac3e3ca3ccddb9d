//! String helpers shared by the policy engine and the listing assembler:
//! file name extensions and byte-wise lexicographic comparison.

use vstd::prelude::*;

verus! {

/// Index of the last `'.'` in `s`, or `-1` if there is none.
pub open spec fn rlast_dot(s: Seq<char>) -> int
    decreases s.len(),
{
    if s.len() == 0 {
        -1
    } else if s[s.len() - 1] == '.' {
        s.len() - 1
    } else {
        rlast_dot(s.drop_last())
    }
}

/// The extension of a file name: the part after the last `'.'`, provided the
/// part before it is not empty. A name such as `".secret"` has no extension,
/// while `"a.md"` has extension `"md"` and `"foo."` the empty extension.
pub open spec fn ext_of(name: Seq<char>) -> Option<Seq<char>> {
    let d = rlast_dot(name);
    if d <= 0 {
        None
    } else {
        Some(name.subrange(d + 1, name.len() as int))
    }
}

proof fn lemma_rlast_dot_found(s: Seq<char>, i: int)
    requires
        0 <= i < s.len(),
        s[i] == '.',
        forall|k: int| i < k < s.len() ==> s[k] != '.',
    ensures
        rlast_dot(s) == i,
    decreases s.len(),
{
    if i == s.len() - 1 {
    } else {
        lemma_rlast_dot_found(s.drop_last(), i);
    }
}

proof fn lemma_rlast_dot_absent(s: Seq<char>)
    requires
        forall|k: int| 0 <= k < s.len() ==> s[k] != '.',
    ensures
        rlast_dot(s) == -1,
    decreases s.len(),
{
    if s.len() > 0 {
        lemma_rlast_dot_absent(s.drop_last());
    }
}

/// The extension of `name`, as [`ext_of`] describes it.
pub fn extension_of(name: &str) -> (r: Option<String>)
    ensures
        r is Some <==> ext_of(name@) is Some,
        r is Some ==> r.unwrap()@ == ext_of(name@).unwrap(),
{
    let n = name.unicode_len();
    let mut i: usize = n;
    while i > 0
        invariant
            i <= n,
            n == name@.len(),
            forall|k: int| i <= k < n ==> name@[k] != '.',
        decreases i,
    {
        let c = name.get_char(i - 1);
        if c == '.' {
            proof {
                lemma_rlast_dot_found(name@, i - 1);
            }
            if i == 1 {
                return None;
            } else {
                let ext = name.substring_char(i, n);
                return Some(ext.to_owned());
            }
        }
        i = i - 1;
    }
    proof {
        lemma_rlast_dot_absent(name@);
    }
    None
}

/// Copies a sequence of strings element by element.
pub fn clone_names(v: &Vec<String>) -> (r: Vec<String>)
    ensures
        r.deep_view() == v.deep_view(),
{
    let mut r: Vec<String> = Vec::new();
    let mut i: usize = 0;
    while i < v.len()
        invariant
            i <= v.len(),
            r.deep_view() =~= v.deep_view().take(i as int),
        decreases v.len() - i,
    {
        let ghost pre = r.deep_view();
        r.push(v[i].clone());
        proof {
            assert(r.deep_view() =~= pre.push(v.deep_view()[i as int]));
            assert(v.deep_view().take(i + 1) =~= v.deep_view().take(i as int).push(
                v.deep_view()[i as int],
            ));
        }
        i = i + 1;
    }
    proof {
        assert(r.deep_view() =~= v.deep_view());
    }
    r
}

/// Byte-wise (equivalently, codepoint-wise) lexicographic "less than or
/// equal" on character sequences.
pub open spec fn lex_le(a: Seq<char>, b: Seq<char>) -> bool
    decreases a.len(),
{
    if a.len() == 0 {
        true
    } else if b.len() == 0 {
        false
    } else if a[0] == b[0] {
        lex_le(a.drop_first(), b.drop_first())
    } else {
        a[0] < b[0]
    }
}

/// Lexicographic order relates every pair of names one way or the other.
pub proof fn lemma_lex_total(a: Seq<char>, b: Seq<char>)
    ensures
        lex_le(a, b) || lex_le(b, a),
    decreases a.len(),
{
    if a.len() > 0 && b.len() > 0 {
        if a[0] == b[0] {
            lemma_lex_total(a.drop_first(), b.drop_first());
        }
    }
}

/// Lexicographic order is transitive.
pub proof fn lemma_lex_trans(a: Seq<char>, b: Seq<char>, c: Seq<char>)
    requires
        lex_le(a, b),
        lex_le(b, c),
    ensures
        lex_le(a, c),
    decreases a.len(),
{
    if a.len() > 0 && b.len() > 0 && c.len() > 0 {
        if a[0] == b[0] && b[0] == c[0] {
            lemma_lex_trans(a.drop_first(), b.drop_first(), c.drop_first());
        }
    }
}

/// Decides [`lex_le`] on string slices.
pub fn lex_le_str(a: &str, b: &str) -> (r: bool)
    ensures
        r == lex_le(a@, b@),
    decreases a@.len(),
{
    let an = a.unicode_len();
    let bn = b.unicode_len();
    if an == 0 {
        true
    } else if bn == 0 {
        false
    } else {
        let ca = a.get_char(0);
        let cb = b.get_char(0);
        if ca == cb {
            let ra = a.substring_char(1, an);
            let rb = b.substring_char(1, bn);
            lex_le_str(ra, rb)
        } else {
            ca < cb
        }
    }
}

} // verus!
