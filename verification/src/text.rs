//! Byte-string helpers shared by the synthesis pipeline and the operation
//! builder: the name derivations of the synthesizer and the
//! namespace-separator rewrite used for defaulted operation ids.

use vstd::prelude::*;

verus! {

/// The deep view of a byte string is its view: element views are the
/// elements themselves.
pub broadcast proof fn lemma_bytes_deep_view(v: Vec<u8>)
    ensures
        #[trigger] v.deep_view() == v@,
{
    assert(v.deep_view() =~= v@);
}

/// Exact byte-for-byte equality of two byte strings.
pub fn bytes_eq(a: &Vec<u8>, b: &Vec<u8>) -> (r: bool)
    ensures
        r == (a@ == b@),
{
    if a.len() != b.len() {
        return false;
    }
    let mut i: usize = 0;
    while i < a.len()
        invariant
            i <= a.len(),
            a.len() == b.len(),
            forall|j: int| 0 <= j < i ==> a@[j] == b@[j],
        decreases a.len() - i,
    {
        if a[i] != b[i] {
            return false;
        }
        i = i + 1;
    }
    proof {
        assert(a@ =~= b@);
    }
    true
}

/// An independent copy of a byte string.
pub fn copy_bytes(s: &Vec<u8>) -> (r: Vec<u8>)
    ensures
        r@ == s@,
{
    let mut r: Vec<u8> = Vec::new();
    let mut i: usize = 0;
    while i < s.len()
        invariant
            i <= s.len(),
            r@ == s@.take(i as int),
        decreases s.len() - i,
    {
        proof {
            assert(s@.take(i + 1) =~= s@.take(i as int).push(s@[i as int]));
        }
        r.push(s[i]);
        i = i + 1;
    }
    proof {
        assert(s@.take(s.len() as int) =~= s@);
    }
    r
}

/// The suffix of `s` after its last space; `s` itself if it holds no space.
/// This is how a binding pattern such as `mut pdata` yields the bare
/// identifier `pdata`: everything after the mutability qualifier.
pub open spec fn after_last_space(s: Seq<u8>) -> Seq<u8>
    decreases s.len(),
{
    if s.len() == 0 {
        s
    } else if s.last() == 32u8 {
        Seq::empty()
    } else {
        after_last_space(s.drop_last()).push(s.last())
    }
}

/// Strip any binding qualifier: return the part of `s` after its last space.
pub fn strip_qualifier(s: &Vec<u8>) -> (r: Vec<u8>)
    ensures
        r@ == after_last_space(s@),
{
    let mut r: Vec<u8> = Vec::new();
    let mut i: usize = 0;
    while i < s.len()
        invariant
            i <= s.len(),
            r@ == after_last_space(s@.take(i as int)),
        decreases s.len() - i,
    {
        proof {
            assert(s@.take(i + 1).drop_last() =~= s@.take(i as int));
            assert(s@.take(i + 1).last() == s@[i as int]);
        }
        if s[i] == 32 {
            r = Vec::new();
        } else {
            r.push(s[i]);
        }
        i = i + 1;
    }
    proof {
        assert(s@.take(s.len() as int) =~= s@);
    }
    r
}

/// `s` with one leading underscore removed, if it has one.
pub open spec fn strip_one_underscore(s: Seq<u8>) -> Seq<u8> {
    if s.len() > 0 && s[0] == 95u8 {
        s.skip(1)
    } else {
        s
    }
}

/// The lookup name derived from a bare binding identifier: a single leading
/// underscore is stripped, so `_inner` looks up `inner`.
pub fn strip_underscore(s: &Vec<u8>) -> (r: Vec<u8>)
    ensures
        r@ == strip_one_underscore(s@),
{
    let mut r: Vec<u8> = Vec::new();
    let mut i: usize = if s.len() > 0 && s[0] == 95 {
        1
    } else {
        0
    };
    let ghost start: int = i as int;
    while i < s.len()
        invariant
            start <= i <= s.len(),
            r@ == s@.subrange(start, i as int),
        decreases s.len() - i,
    {
        proof {
            assert(s@.subrange(start, i + 1) =~= s@.subrange(start, i as int).push(s@[i as int]));
        }
        r.push(s[i]);
        i = i + 1;
    }
    proof {
        if s@.len() > 0 && s@[0] == 95u8 {
            assert(s@.subrange(1, s@.len() as int) =~= s@.skip(1));
        } else {
            assert(s@.subrange(0, s@.len() as int) =~= s@);
        }
    }
    r
}

/// `s` with every `::` namespace-separator pair replaced by a single dot,
/// scanning left to right.
pub open spec fn dotted(s: Seq<u8>) -> Seq<u8>
    decreases s.len(),
{
    if s.len() == 0 {
        Seq::empty()
    } else if s.len() >= 2 && s[0] == 58u8 && s[1] == 58u8 {
        seq![46u8] + dotted(s.skip(2))
    } else {
        seq![s[0]] + dotted(s.skip(1))
    }
}

/// Rewrite every `::` pair in `s` to a single dot: how a fully qualified
/// name such as `mod::sub::Handler` becomes the operation id
/// `mod.sub.Handler`.
pub fn rewrite_separators(s: &Vec<u8>) -> (r: Vec<u8>)
    ensures
        r@ == dotted(s@),
{
    let mut r: Vec<u8> = Vec::new();
    let mut i: usize = 0;
    proof {
        assert(s@.skip(0) =~= s@);
        assert(Seq::<u8>::empty() + dotted(s@) =~= dotted(s@));
    }
    while i < s.len()
        invariant
            i <= s.len(),
            dotted(s@) == r@ + dotted(s@.skip(i as int)),
        decreases s.len() - i,
    {
        let ghost rest = s@.skip(i as int);
        if i + 1 < s.len() && s[i] == 58 && s[i + 1] == 58 {
            proof {
                assert(rest.len() >= 2 && rest[0] == 58u8 && rest[1] == 58u8);
                assert(rest.skip(2) =~= s@.skip(i + 2));
                assert((r@ + dotted(rest)) =~= (r@.push(46u8) + dotted(s@.skip(i + 2))));
            }
            r.push(46);
            i = i + 2;
        } else {
            proof {
                assert(rest.len() >= 1 && rest[0] == s@[i as int]);
                assert(!(rest.len() >= 2 && rest[0] == 58u8 && rest[1] == 58u8));
                assert(rest.skip(1) =~= s@.skip(i + 1));
                assert((r@ + dotted(rest)) =~= (r@.push(s@[i as int]) + dotted(s@.skip(i + 1))));
            }
            r.push(s[i]);
            i = i + 1;
        }
    }
    proof {
        assert(s@.skip(s.len() as int) =~= Seq::<u8>::empty());
        assert(r@ + Seq::<u8>::empty() =~= r@);
    }
    r
}

} // verus!
