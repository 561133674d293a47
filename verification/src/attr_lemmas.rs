//! Facts about reading lists of element values, element value pairs, attributes and
//! instructions one item at a time.
use vstd::prelude::*;
use crate::attr_spec::{
    attr_end, attr_is, attr_list_end, attr_list_is, code_end, code_is, ev_end, ev_is, ev_list_end,
    ev_list_is, pair_list_end, pair_list_is,
};
use crate::attributes::{Attribute, ElementValue, ElementValuePair};
use crate::bytes::be16;
use crate::error::ParseError;
use crate::opcodes::{opcode_end, opcode_is, Opcode};

verus! {

pub proof fn lemma_ev_list_snoc(
    s: Seq<u8>,
    p0: int,
    v: Seq<ElementValue>,
    x: ElementValue,
    p: int,
    q: int,
)
    requires
        ev_list_end(s, p0, v.len() as int) == Ok::<int, ParseError>(p),
        ev_list_is(s, p0, v),
        ev_end(s, p) == Ok::<int, ParseError>(q),
        p < q <= s.len(),
        ev_is(s, p, x),
    ensures
        ev_list_end(s, p0, v.len() + 1 as int) == Ok::<int, ParseError>(q),
        ev_list_is(s, p0, v.push(x)),
    decreases v.len(),
{
    if v.len() == 0 {
        assert(ev_list_end(s, q, 0) == Ok::<int, ParseError>(q));
        assert(ev_list_is(s, q, Seq::empty()));
        assert(v.push(x).subrange(1, 1) =~= Seq::<ElementValue>::empty());
        assert(v.push(x)[0] == x);
    } else {
        let q0 = ev_end(s, p0)->Ok_0;
        let tail = v.subrange(1, v.len() as int);
        lemma_ev_list_snoc(s, q0, tail, x, p, q);
        assert(v.push(x).subrange(1, v.len() + 1 as int) =~= tail.push(x));
        assert(v.push(x)[0] == v[0]);
        assert(ev_list_is(s, q0, tail.push(x)));
    }
}

pub proof fn lemma_ev_list_fail(s: Seq<u8>, p0: int, i: int, n: int, p: int, e: ParseError)
    requires
        0 <= i < n,
        ev_list_end(s, p0, i) == Ok::<int, ParseError>(p),
        ev_end(s, p) == Err::<int, ParseError>(e),
    ensures
        ev_list_end(s, p0, n) == Err::<int, ParseError>(e),
    decreases i,
{
    if i > 0 {
        let q0 = ev_end(s, p0)->Ok_0;
        lemma_ev_list_fail(s, q0, i - 1, n - 1, p, e);
    }
}

pub proof fn lemma_pair_list_snoc(
    s: Seq<u8>,
    p0: int,
    v: Seq<ElementValuePair>,
    x: ElementValuePair,
    p: int,
    q: int,
)
    requires
        pair_list_end(s, p0, v.len() as int) == Ok::<int, ParseError>(p),
        pair_list_is(s, p0, v),
        p + 2 <= s.len(),
        ev_end(s, p + 2) == Ok::<int, ParseError>(q),
        p < q <= s.len(),
        x.element_name_index == be16(s, p),
        ev_is(s, p + 2, x.value),
    ensures
        pair_list_end(s, p0, v.len() + 1 as int) == Ok::<int, ParseError>(q),
        pair_list_is(s, p0, v.push(x)),
    decreases v.len(),
{
    if v.len() == 0 {
        assert(pair_list_end(s, q, 0) == Ok::<int, ParseError>(q));
        assert(pair_list_is(s, q, Seq::empty()));
        assert(v.push(x).subrange(1, 1) =~= Seq::<ElementValuePair>::empty());
        assert(v.push(x)[0] == x);
    } else {
        let q0 = ev_end(s, p0 + 2)->Ok_0;
        let tail = v.subrange(1, v.len() as int);
        lemma_pair_list_snoc(s, q0, tail, x, p, q);
        assert(v.push(x).subrange(1, v.len() + 1 as int) =~= tail.push(x));
        assert(v.push(x)[0] == v[0]);
        assert(pair_list_is(s, q0, tail.push(x)));
    }
}

pub proof fn lemma_pair_list_fail(s: Seq<u8>, p0: int, i: int, n: int, p: int, e: ParseError)
    requires
        0 <= i < n,
        pair_list_end(s, p0, i) == Ok::<int, ParseError>(p),
        p + 2 > s.len() ==> e == ParseError::EndOfFile,
        p + 2 <= s.len() ==> ev_end(s, p + 2) == Err::<int, ParseError>(e),
    ensures
        pair_list_end(s, p0, n) == Err::<int, ParseError>(e),
    decreases i,
{
    if i > 0 {
        let q0 = ev_end(s, p0 + 2)->Ok_0;
        lemma_pair_list_fail(s, q0, i - 1, n - 1, p, e);
    }
}

pub proof fn lemma_attr_list_snoc(
    s: Seq<u8>,
    p0: int,
    v: Seq<Attribute>,
    x: Attribute,
    p: int,
    q: int,
    cp: Seq<Option<Seq<u8>>>,
)
    requires
        attr_list_end(s, p0, v.len() as int, cp) == Ok::<int, ParseError>(p),
        attr_list_is(s, p0, v, cp),
        attr_end(s, p, cp) == Ok::<int, ParseError>(q),
        p < q <= s.len(),
        attr_is(s, p, cp, x),
    ensures
        attr_list_end(s, p0, v.len() + 1 as int, cp) == Ok::<int, ParseError>(q),
        attr_list_is(s, p0, v.push(x), cp),
    decreases v.len(),
{
    if v.len() == 0 {
        assert(attr_list_end(s, q, 0, cp) == Ok::<int, ParseError>(q));
        assert(attr_list_is(s, q, Seq::empty(), cp));
        assert(v.push(x).subrange(1, 1) =~= Seq::<Attribute>::empty());
        assert(v.push(x)[0] == x);
    } else {
        let q0 = attr_end(s, p0, cp)->Ok_0;
        let tail = v.subrange(1, v.len() as int);
        lemma_attr_list_snoc(s, q0, tail, x, p, q, cp);
        assert(v.push(x).subrange(1, v.len() + 1 as int) =~= tail.push(x));
        assert(v.push(x)[0] == v[0]);
        assert(attr_list_is(s, q0, tail.push(x), cp));
    }
}

pub proof fn lemma_attr_list_fail(
    s: Seq<u8>,
    p0: int,
    i: int,
    n: int,
    p: int,
    e: ParseError,
    cp: Seq<Option<Seq<u8>>>,
)
    requires
        0 <= i < n,
        attr_list_end(s, p0, i, cp) == Ok::<int, ParseError>(p),
        attr_end(s, p, cp) == Err::<int, ParseError>(e),
    ensures
        attr_list_end(s, p0, n, cp) == Err::<int, ParseError>(e),
    decreases i,
{
    if i > 0 {
        let q0 = attr_end(s, p0, cp)->Ok_0;
        lemma_attr_list_fail(s, q0, i - 1, n - 1, p, e, cp);
    }
}

/// The instructions `v` read from `p0` on end at the returned position, every one of them
/// starting before the end of the method body.
pub open spec fn code_walk(s: Seq<u8>, start: u32, p0: int, code_len: u32, v: Seq<Opcode>) -> Option<
    int,
>
    decreases v.len(),
{
    if v.len() == 0 {
        Some(p0)
    } else if p0 < 0 || p0 > s.len() || p0 - start >= code_len {
        None
    } else {
        match opcode_end(s, p0, start) {
            Some(q) => if p0 < q <= s.len() && opcode_is(s, p0, start, v[0]) {
                code_walk(s, start, q, code_len, v.subrange(1, v.len() as int))
            } else {
                None
            },
            None => None,
        }
    }
}

pub proof fn lemma_code_walk_snoc(
    s: Seq<u8>,
    start: u32,
    p0: int,
    code_len: u32,
    v: Seq<Opcode>,
    x: Opcode,
    p: int,
    q: int,
)
    requires
        code_walk(s, start, p0, code_len, v) == Some(p),
        0 <= p <= s.len(),
        p - start < code_len,
        opcode_end(s, p, start) == Some(q),
        p < q <= s.len(),
        opcode_is(s, p, start, x),
    ensures
        code_walk(s, start, p0, code_len, v.push(x)) == Some(q),
        code_end(s, start, p0, code_len) == code_end(s, start, q, code_len),
    decreases v.len(),
{
    if v.len() == 0 {
        assert(v.push(x).subrange(1, 1) =~= Seq::<Opcode>::empty());
        assert(v.push(x)[0] == x);
        assert(code_walk(s, start, q, code_len, Seq::empty()) == Some(q));
    } else {
        let q0 = opcode_end(s, p0, start)->Some_0;
        let tail = v.subrange(1, v.len() as int);
        lemma_code_walk_snoc(s, start, q0, code_len, tail, x, p, q);
        assert(v.push(x).subrange(1, v.len() + 1 as int) =~= tail.push(x));
        assert(v.push(x)[0] == v[0]);
        assert(code_walk(s, start, q0, code_len, tail.push(x)) == Some(q));
    }
}

pub proof fn lemma_code_walk_done(
    s: Seq<u8>,
    start: u32,
    p0: int,
    code_len: u32,
    v: Seq<Opcode>,
    p: int,
)
    requires
        code_walk(s, start, p0, code_len, v) == Some(p),
        0 <= p <= s.len(),
        0 <= p0,
        p - start >= code_len,
    ensures
        code_end(s, start, p0, code_len) == Ok::<int, ParseError>(p),
        code_is(s, start, p0, code_len, v),
    decreases v.len(),
{
    if v.len() > 0 {
        let q0 = opcode_end(s, p0, start)->Some_0;
        lemma_code_walk_done(s, start, q0, code_len, v.subrange(1, v.len() as int), p);
    }
}

pub proof fn lemma_code_walk_fail(
    s: Seq<u8>,
    start: u32,
    p0: int,
    code_len: u32,
    v: Seq<Opcode>,
    p: int,
)
    requires
        code_walk(s, start, p0, code_len, v) == Some(p),
        0 <= p <= s.len(),
        0 <= p0,
        p - start < code_len,
        opcode_end(s, p, start) is None,
    ensures
        code_end(s, start, p0, code_len) == Err::<int, ParseError>(ParseError::InvalidBytecode),
    decreases v.len(),
{
    if v.len() > 0 {
        let q0 = opcode_end(s, p0, start)->Some_0;
        lemma_code_walk_fail(s, start, q0, code_len, v.subrange(1, v.len() as int), p);
    }
}

} // verus!
