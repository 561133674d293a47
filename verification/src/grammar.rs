//! Counted repetitions of items in a byte string: where they end and what they are.
use vstd::prelude::*;
use crate::error::ParseError;

verus! {

/// Where `n` items read one after another from `s[p]` end, when `f` says where one item
/// read from a position ends (or why it cannot be read).
pub open spec fn many_end(
    s: Seq<u8>,
    p: int,
    n: nat,
    f: spec_fn(Seq<u8>, int) -> Result<int, ParseError>,
) -> Result<int, ParseError>
    decreases n,
{
    if n == 0 {
        Ok(p)
    } else {
        match f(s, p) {
            Err(e) => Err(e),
            Ok(q) => many_end(s, q, (n - 1) as nat, f),
        }
    }
}

/// `v` are the items read one after another from `s[p]`, when `f` says where one item ends
/// and `g` says which value an item read from a position is.
pub open spec fn many_is<T>(
    s: Seq<u8>,
    p: int,
    v: Seq<T>,
    f: spec_fn(Seq<u8>, int) -> Result<int, ParseError>,
    g: spec_fn(Seq<u8>, int, T) -> bool,
) -> bool
    decreases v.len(),
{
    if v.len() == 0 {
        true
    } else {
        match f(s, p) {
            Err(_) => false,
            Ok(q) => g(s, p, v[0]) && many_is(s, q, v.subrange(1, v.len() as int), f, g),
        }
    }
}

/// Reading one more item after `i` items.
pub proof fn lemma_many_snoc<T>(
    s: Seq<u8>,
    p0: int,
    v: Seq<T>,
    x: T,
    p: int,
    q: int,
    f: spec_fn(Seq<u8>, int) -> Result<int, ParseError>,
    g: spec_fn(Seq<u8>, int, T) -> bool,
)
    requires
        many_end(s, p0, v.len(), f) == Ok::<int, ParseError>(p),
        many_is(s, p0, v, f, g),
        f(s, p) == Ok::<int, ParseError>(q),
        g(s, p, x),
    ensures
        many_end(s, p0, v.len() + 1, f) == Ok::<int, ParseError>(q),
        many_is(s, p0, v.push(x), f, g),
    decreases v.len(),
{
    if v.len() == 0 {
        assert(p == p0);
        assert(many_end(s, q, 0, f) == Ok::<int, ParseError>(q));
        assert(v.push(x).subrange(1, 1) =~= Seq::<T>::empty());
        assert(many_is(s, q, Seq::<T>::empty(), f, g));
        assert(v.push(x)[0] == x);
    } else {
        let q0 = f(s, p0)->Ok_0;
        let tail = v.subrange(1, v.len() as int);
        assert(many_end(s, q0, tail.len(), f) == Ok::<int, ParseError>(p));
        lemma_many_snoc(s, q0, tail, x, p, q, f, g);
        assert(v.push(x).subrange(1, v.len() + 1 as int) =~= tail.push(x));
        assert(many_end(s, p0, v.len() + 1, f) == many_end(s, q0, tail.len() + 1, f));
        assert(v.push(x)[0] == v[0]);
    }
}

/// When the item after `i` items cannot be read, no more than `i` items can be.
pub proof fn lemma_many_fail(
    s: Seq<u8>,
    p0: int,
    i: nat,
    n: nat,
    p: int,
    e: ParseError,
    f: spec_fn(Seq<u8>, int) -> Result<int, ParseError>,
)
    requires
        i < n,
        many_end(s, p0, i, f) == Ok::<int, ParseError>(p),
        f(s, p) == Err::<int, ParseError>(e),
    ensures
        many_end(s, p0, n, f) == Err::<int, ParseError>(e),
    decreases i,
{
    if i > 0 {
        let q0 = f(s, p0)->Ok_0;
        lemma_many_fail(s, q0, (i - 1) as nat, (n - 1) as nat, p, e, f);
    }
}

} // verus!
