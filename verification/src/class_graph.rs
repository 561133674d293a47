//! The classes that a virtual machine has loaded, held as a graph in which each class
//! refers to others by their place, and how methods are found in it.
use vstd::prelude::*;
use crate::text::{chars_eq, chars_of, push_str};
use vstd::string::StrSliceExecFns;
use crate::class::JavaClass;
use crate::cp::{cp_at, cp_has, CPIndex};
use crate::cp_info::CPInfo;
use crate::mutf8::modified_utf8_chars;
use crate::runtime::{
    cp_name_ok, cp_name_readable, entry_name_bytes, entry_name_ok, entry_name_readable, get_name,
    get_name_cp, utf8_reached,
};

verus! {

/// A method that a class declares: the place of that class in the graph, and the method's
/// access flags.
#[derive(Clone, Copy, Debug, PartialEq, Eq, Structural)]
pub struct MethodEntry {
    pub class: usize,
    pub access_flags: u16,
}

/// A loaded class: its access flags, its name in binary form, the places of its
/// superclass (none for `java/lang/Object` and the primitive types), of its direct
/// superinterfaces and, for an array class, of its element class, and its methods by
/// their name followed by their descriptor.
#[derive(Debug)]
pub struct ClassEntry {
    pub access_flags: u16,
    pub name: String,
    pub super_class: Option<usize>,
    pub interfaces: Vec<usize>,
    pub methods: Vec<(String, MethodEntry)>,
    pub array_inner: Option<usize>,
}

/// The loaded classes; a class refers only to classes that stand before it.
#[derive(Debug)]
pub struct ClassGraph {
    pub classes: Vec<ClassEntry>,
}

pub open spec fn acc_public() -> u16 {
    0x0001
}

pub open spec fn acc_private() -> u16 {
    0x0002
}

pub open spec fn acc_protected() -> u16 {
    0x0004
}

pub open spec fn acc_static() -> u16 {
    0x0008
}

pub open spec fn acc_super() -> u16 {
    0x0020
}

pub open spec fn acc_interface() -> u16 {
    0x0200
}

pub open spec fn acc_abstract() -> u16 {
    0x0400
}

impl ClassGraph {
    /// Every class refers only to classes before it (so no chain of superclasses,
    /// superinterfaces or element classes goes round), and every method names a class of
    /// the graph.
    pub open spec fn wf(&self) -> bool {
        forall|c: int|
            0 <= c < self.classes@.len() ==> {
                let e = #[trigger] self.classes@[c];
                &&& (e.super_class matches Some(s) ==> s < c)
                &&& (e.array_inner matches Some(a) ==> a < c)
                &&& forall|k: int| 0 <= k < e.interfaces@.len() ==> #[trigger] e.interfaces@[k] < c
                &&& forall|k: int|
                    0 <= k < e.methods@.len() ==> (#[trigger] e.methods@[k]).1.class
                        < self.classes@.len()
            }
    }
}

/// The method kept under `repr` in `ms`: the last entry with that key, as a later entry
/// of a map replaces an earlier one.
pub open spec fn method_in(ms: Seq<(String, MethodEntry)>, repr: Seq<char>) -> Option<MethodEntry>
    decreases ms.len(),
{
    if ms.len() == 0 {
        None
    } else if ms.last().0@ == repr {
        Some(ms.last().1)
    } else {
        method_in(ms.drop_last(), repr)
    }
}

/// The method kept under `repr` in the class at `c`.
pub open spec fn declared(g: ClassGraph, c: int, repr: Seq<char>) -> Option<MethodEntry> {
    method_in(g.classes@[c].methods@, repr)
}

/// The class at `c` is an interface.
pub open spec fn spec_is_interface(g: ClassGraph, c: int) -> bool {
    g.classes@[c].access_flags & acc_interface() != 0
}

/// The method found under `repr` in the class at `c` or, failing that, in its
/// superclasses, the nearest first.
pub open spec fn lookup_up(g: ClassGraph, c: int, repr: Seq<char>) -> Option<MethodEntry>
    decreases c,
{
    if c < 0 || c >= g.classes@.len() {
        None
    } else {
        match declared(g, c, repr) {
            Some(m) => Some(m),
            None => match g.classes@[c].super_class {
                Some(s) => if s < c {
                    lookup_up(g, s as int, repr)
                } else {
                    None
                },
                None => None,
            },
        }
    }
}

/// A method that can stand in for an interface's: not abstract, not private, not static.
pub open spec fn usable_default(m: MethodEntry) -> bool {
    m.access_flags & acc_abstract() == 0 && m.access_flags & (acc_private() | acc_static()) == 0
}

/// What `find_method_superinterface` finds among the direct superinterfaces `ifs`, with
/// `found` found before them: the one usable method kept under `repr`, none, or an
/// error where two are found.
pub open spec fn scan_interfaces(
    g: ClassGraph,
    ifs: Seq<usize>,
    repr: Seq<char>,
    found: Option<MethodEntry>,
) -> Result<Option<MethodEntry>, &'static str>
    decreases ifs.len(),
{
    if ifs.len() == 0 {
        Ok(found)
    } else {
        let i = ifs[0] as int;
        let next = if 0 <= i < g.classes@.len() {
            match declared(g, i, repr) {
                Some(m) => if usable_default(m) {
                    if found is Some {
                        None
                    } else {
                        Some(Some(m))
                    }
                } else {
                    Some(found)
                },
                None => Some(found),
            }
        } else {
            Some(found)
        };
        match next {
            None => Err("IncompatibleClassChangeError"),
            Some(f) => scan_interfaces(g, ifs.drop_first(), repr, f),
        }
    }
}

/// What `find_method_superinterface` gives for the class at `c`.
pub open spec fn superinterface_method(g: ClassGraph, c: int, repr: Seq<char>) -> Result<
    Option<MethodEntry>,
    &'static str,
> {
    scan_interfaces(g, g.classes@[c].interfaces@, repr, None)
}

/// What `resolve_method` (and `resolve_static_method`) gives for the class at `c`: an
/// interface is refused; else the method is looked up in the class, its superclasses,
/// then its direct superinterfaces.
pub open spec fn spec_resolve_method(g: ClassGraph, c: int, repr: Seq<char>) -> Result<
    MethodEntry,
    &'static str,
> {
    if spec_is_interface(g, c) {
        Err("IncompatibleClassChangeError")
    } else {
        match lookup_up(g, c, repr) {
            Some(m) => Ok(m),
            None => match superinterface_method(g, c, repr) {
                Err(e) => Err(e),
                Ok(Some(m)) => Ok(m),
                Ok(None) => Err("NoSuchMethodError"),
            },
        }
    }
}

/// Where the last `c` before position `i` of `s` stands, or -1 where there is none.
pub open spec fn last_before(s: Seq<char>, c: char, i: int) -> int
    decreases i,
{
    if i <= 0 {
        -1
    } else if s[i - 1] == c {
        i - 1
    } else {
        last_before(s, c, i - 1)
    }
}

/// The run-time package of a class named `n`: what stands before its last `/`, or nothing
/// where it has no `/`.
pub open spec fn package(n: Seq<char>) -> Seq<char> {
    let k = last_before(n, '/', n.len() as int);
    if k >= 0 {
        n.subrange(0, k)
    } else {
        Seq::empty()
    }
}

/// A name that starts with `[`, as those of array classes do.
pub open spec fn array_name(n: Seq<char>) -> bool {
    n.len() > 0 && n[0] == '['
}

/// The class at `target` is the class at `c` or one of its superclasses.
pub open spec fn in_super_chain(g: ClassGraph, c: int, target: int) -> bool
    decreases c,
{
    if c < 0 || c >= g.classes@.len() {
        false
    } else if c == target {
        true
    } else {
        match g.classes@[c].super_class {
            Some(s) => s < c && in_super_chain(g, s as int, target),
            None => false,
        }
    }
}

/// The class at `c` is the one at `e` or has it among its superinterfaces, however far up.
pub open spec fn spec_implements(g: ClassGraph, c: int, e: int) -> bool
    decreases c, 1int, 0int,
{
    c == e || implements_from(g, c, e, 0)
}

/// One of the direct superinterfaces of the class at `c`, from the `k`-th on, implements
/// the one at `e`.
pub open spec fn implements_from(g: ClassGraph, c: int, e: int, k: int) -> bool
    decreases c, 0int, g.classes@[c].interfaces@.len() - k,
{
    if c < 0 || c >= g.classes@.len() || k < 0 || k >= g.classes@[c].interfaces@.len() {
        false
    } else {
        let i = g.classes@[c].interfaces@[k] as int;
        (i < c && spec_implements(g, i, e)) || implements_from(g, c, e, k + 1)
    }
}

/// The name of the class at `c`.
pub open spec fn name_of(g: ClassGraph, c: int) -> Seq<char> {
    g.classes@[c].name@
}

/// The class at `c` is `java/lang/Object`.
pub open spec fn spec_is_object(g: ClassGraph, c: int) -> bool {
    name_of(g, c) == "java/lang/Object"@
}

/// The class at `c`, or one of its superclasses, implements the interface at `e`.
pub open spec fn chain_implements(g: ClassGraph, c: int, e: int) -> bool
    decreases c,
{
    if c < 0 || c >= g.classes@.len() {
        false
    } else if spec_implements(g, c, e) {
        true
    } else {
        match g.classes@[c].super_class {
            Some(s) => s < c && chain_implements(g, s as int, e),
            None => false,
        }
    }
}

/// Whether the class at `c` is an instance of the one at `e`, as `instanceof` decides it.
pub open spec fn spec_instanceof(g: ClassGraph, c: int, e: int) -> bool
    decreases c,
{
    if c < 0 || c >= g.classes@.len() || e < 0 || e >= g.classes@.len() {
        false
    } else if spec_is_interface(g, c) {
        if spec_is_interface(g, e) {
            spec_implements(g, c, e)
        } else {
            spec_is_object(g, e)
        }
    } else if array_name(name_of(g, c)) {
        if spec_is_interface(g, e) {
            name_of(g, e) == "java/lang/Cloneable"@ || name_of(g, e) == "java/io/Serializable"@
        } else if array_name(name_of(g, e)) {
            match (g.classes@[c].array_inner, g.classes@[e].array_inner) {
                (Some(a), Some(b)) => a < c && spec_instanceof(g, a as int, b as int),
                _ => name_of(g, c) == name_of(g, e),
            }
        } else {
            spec_is_object(g, e)
        }
    } else if spec_is_interface(g, e) {
        chain_implements(g, c, e)
    } else {
        in_super_chain(g, c, e)
    }
}

/// What a method found by `invokeinterface` in a class or its superclasses gives: an
/// error where it is not public or is abstract.
pub open spec fn interface_checked(m: MethodEntry) -> Result<MethodEntry, &'static str> {
    if m.access_flags & acc_public() == 0 {
        Err("IllegalAccessError")
    } else if m.access_flags & acc_abstract() != 0 {
        Err("AbstractMethodError")
    } else {
        Ok(m)
    }
}

/// The method found in the direct superinterfaces of the class at `c`, or `missing`.
pub open spec fn from_superinterfaces(
    g: ClassGraph,
    c: int,
    repr: Seq<char>,
    missing: &'static str,
) -> Result<MethodEntry, &'static str> {
    match superinterface_method(g, c, repr) {
        Err(e) => Err(e),
        Ok(Some(m)) => Ok(m),
        Ok(None) => Err(missing),
    }
}

/// What `resolve_method_invokeinterface` gives for the class at `c`.
pub open spec fn spec_resolve_invokeinterface(g: ClassGraph, c: int, repr: Seq<char>) -> Result<
    MethodEntry,
    &'static str,
> {
    match lookup_up(g, c, repr) {
        Some(m) => interface_checked(m),
        None => from_superinterfaces(g, c, repr, "AbstractMethodError"),
    }
}

/// `n` ends with `suffix`.
pub open spec fn ends_with(n: Seq<char>, suffix: Seq<char>) -> bool {
    n.len() >= suffix.len() && n.subrange(n.len() - suffix.len(), n.len() as int) == suffix
}

/// The first class, from the `i`-th on, named `n`.
pub open spec fn class_named_from(g: ClassGraph, n: Seq<char>, i: int) -> Option<int>
    decreases g.classes@.len() - i,
{
    if i < 0 || i >= g.classes@.len() {
        None
    } else if name_of(g, i) == n {
        Some(i)
    } else {
        class_named_from(g, n, i + 1)
    }
}

/// The class in which `invokespecial` of the method `name` starts to look from the class
/// at `c`: its superclass, where `c` is a class marked `ACC_SUPER` and the name does not
/// end with `/<init>`.
pub open spec fn special_target(g: ClassGraph, c: int, name: Seq<char>) -> int {
    if !ends_with(name, "/<init>"@) && !spec_is_interface(g, c) && g.classes@[c].access_flags
        & acc_super() != 0 {
        g.classes@[c].super_class.unwrap() as int
    } else {
        c
    }
}

/// `resolve_method_invokespecial` can run: a superclass is there where it is needed, and
/// `java/lang/Object` is loaded where an interface leaves the method to it.
pub open spec fn invokespecial_ok(g: ClassGraph, c: int, name: Seq<char>, repr: Seq<char>) -> bool {
    &&& (!ends_with(name, "/<init>"@) && !spec_is_interface(g, c) && g.classes@[c].access_flags
        & acc_super() != 0) ==> g.classes@[c].super_class is Some
    &&& (spec_is_interface(g, special_target(g, c, name)) && declared(
        g,
        special_target(g, c, name),
        repr,
    ) is None) ==> class_named_from(g, "java/lang/Object"@, 0) is Some
}

/// A method of `java/lang/Object` that an interface may take: public, not abstract, not
/// static.
pub open spec fn public_instance(m: MethodEntry) -> bool {
    m.access_flags & (acc_public() | acc_abstract() | acc_static()) == acc_public()
}

/// What `resolve_method_invokespecial` gives for the class at `c`.
pub open spec fn spec_resolve_invokespecial(
    g: ClassGraph,
    c: int,
    name: Seq<char>,
    repr: Seq<char>,
) -> Result<MethodEntry, &'static str> {
    let t = special_target(g, c, name);
    let found = if !spec_is_interface(g, t) {
        lookup_up(g, t, repr)
    } else {
        match declared(g, t, repr) {
            Some(m) => Some(m),
            None => match declared(g, class_named_from(g, "java/lang/Object"@, 0).unwrap(), repr) {
                Some(m) => if public_instance(m) {
                    Some(m)
                } else {
                    None
                },
                None => None,
            },
        }
    };
    match found {
        Some(m) => Ok(m),
        None => from_superinterfaces(g, c, repr, "AbstractMethodError"),
    }
}

/// A class found by name stands in the graph.
pub proof fn lemma_class_named_bounds(g: ClassGraph, n: Seq<char>, i: int)
    ensures
        class_named_from(g, n, i) matches Some(j) ==> i <= j < g.classes@.len() && name_of(g, j)
            == n,
    decreases g.classes@.len() - i,
{
    if 0 <= i < g.classes@.len() && name_of(g, i) != n {
        lemma_class_named_bounds(g, n, i + 1);
    }
}

/// The method kept under a key is one of the entries.
pub proof fn lemma_method_in_member(ms: Seq<(String, MethodEntry)>, repr: Seq<char>)
    ensures
        method_in(ms, repr) matches Some(m) ==> exists|k: int| 0 <= k < ms.len() && ms[k].1 == m,
    decreases ms.len(),
{
    if ms.len() > 0 && ms.last().0@ != repr {
        lemma_method_in_member(ms.drop_last(), repr);
        if method_in(ms, repr) is Some {
            let k = choose|k: int| 0 <= k < ms.drop_last().len() && ms.drop_last()[k].1 == method_in(ms, repr).unwrap();
            assert(ms[k] == ms.drop_last()[k]);
        }
    } else if ms.len() > 0 {
        assert(ms[ms.len() - 1] == ms.last());
    }
}

/// A method kept in a class of a well-formed graph names a class of the graph.
pub proof fn lemma_declared_class(g: ClassGraph, c: int, repr: Seq<char>)
    requires
        g.wf(),
        0 <= c < g.classes@.len(),
    ensures
        declared(g, c, repr) matches Some(m) ==> m.class < g.classes@.len(),
{
    lemma_method_in_member(g.classes@[c].methods@, repr);
    if declared(g, c, repr) is Some {
        let ms = g.classes@[c].methods@;
        let k = choose|k: int| 0 <= k < ms.len() && ms[k].1 == declared(g, c, repr).unwrap();
        assert(ms[k].1.class < g.classes@.len());
    }
}

/// The places in `v`, as integers.
pub open spec fn places(v: Seq<usize>) -> Seq<int> {
    v.map_values(|x: usize| x as int)
}

/// The classes from `c` up to the class at `top`, that one left out, the lowest first.
pub open spec fn chain_below(g: ClassGraph, c: int, top: int) -> Seq<int>
    decreases c,
{
    if c < 0 || c >= g.classes@.len() || c == top {
        Seq::empty()
    } else {
        match g.classes@[c].super_class {
            Some(s) => if s < c {
                seq![c] + chain_below(g, s as int, top)
            } else {
                seq![c]
            },
            None => seq![c],
        }
    }
}

/// The method `m2` can be overridden by `m`: `m2` is public or protected, or not private
/// and declared in the package of `m`.
pub open spec fn overridable_by(g: ClassGraph, m2: MethodEntry, m: MethodEntry) -> bool {
    m2.access_flags & acc_public() != 0 || m2.access_flags & acc_protected() != 0 || (
    m2.access_flags & acc_private() == 0 && package(name_of(g, m.class as int)) == package(
        name_of(g, m2.class as int),
    ))
}

/// `m` is not private and can override one of `may`.
pub open spec fn can_override(g: ClassGraph, m: MethodEntry, may: Seq<MethodEntry>) -> bool {
    m.access_flags & acc_private() == 0 && exists|j: int|
        0 <= j < may.len() && overridable_by(g, #[trigger] may[j], m)
}

/// Going down `chain` (the highest class first), each method under `repr` that can
/// override one of `may` becomes the best and joins `may`.
pub open spec fn override_fold(
    g: ClassGraph,
    chain: Seq<int>,
    repr: Seq<char>,
    best: MethodEntry,
    may: Seq<MethodEntry>,
) -> MethodEntry
    decreases chain.len(),
{
    if chain.len() == 0 {
        best
    } else {
        match declared(g, chain[0], repr) {
            Some(m) => if can_override(g, m, may) {
                override_fold(g, chain.drop_first(), repr, m, may.push(m))
            } else {
                override_fold(g, chain.drop_first(), repr, best, may)
            },
            None => override_fold(g, chain.drop_first(), repr, best, may),
        }
    }
}

/// What `find_override` gives: nothing where `overridden` is not declared in the class
/// at `c` or a superclass; else the lowest method under `repr` down the classes from that
/// one to `c` that overrides it, or it itself.
pub open spec fn spec_find_override(
    g: ClassGraph,
    c: int,
    repr: Seq<char>,
    overridden: MethodEntry,
) -> Option<MethodEntry> {
    if !in_super_chain(g, c, overridden.class as int) {
        None
    } else {
        Some(
            override_fold(
                g,
                chain_below(g, c, overridden.class as int).reverse(),
                repr,
                overridden,
                seq![overridden],
            ),
        )
    }
}

/// What `resolve_method_invokevirtual` gives for the class at `c`.
pub open spec fn spec_resolve_invokevirtual(
    g: ClassGraph,
    c: int,
    repr: Seq<char>,
    resolved: MethodEntry,
) -> Result<MethodEntry, &'static str> {
    match spec_find_override(g, c, repr, resolved) {
        Some(m) => if m.access_flags & acc_abstract() != 0 {
            Err("AbstractMethodError")
        } else {
            Ok(m)
        },
        None => from_superinterfaces(g, c, repr, "AbstractMethodError"),
    }
}

/// What the interface at `i` adds to the methods that `resolve_interface_method` gathers:
/// its method under `repr`, where it is not abstract.
pub open spec fn gathered_here(g: ClassGraph, i: int, repr: Seq<char>) -> Seq<MethodEntry> {
    if 0 <= i < g.classes@.len() {
        match declared(g, i, repr) {
            Some(m) => if m.access_flags & acc_abstract() == 0 {
                seq![m]
            } else {
                Seq::empty()
            },
            None => Seq::empty(),
        }
    } else {
        Seq::empty()
    }
}

/// The methods gathered from the interface at `i`, then from its superinterfaces, last
/// listed first, each with all above it before the next.
pub open spec fn gather_visit(g: ClassGraph, i: int, repr: Seq<char>) -> Seq<MethodEntry>
    decreases i, 1int, 0int,
{
    if 0 <= i < g.classes@.len() {
        gathered_here(g, i, repr) + gather(g, g.classes@[i].interfaces@, repr, i)
    } else {
        Seq::empty()
    }
}

/// The methods gathered from a stack of interfaces `s` (all below `bound`), taken from
/// the top (the end) down.
pub open spec fn gather(g: ClassGraph, s: Seq<usize>, repr: Seq<char>, bound: int) -> Seq<
    MethodEntry,
>
    decreases bound, 0int, s.len(),
{
    if s.len() == 0 {
        Seq::empty()
    } else if 0 <= s.last() < bound {
        gather_visit(g, s.last() as int, repr) + gather(g, s.drop_last(), repr, bound)
    } else {
        Seq::empty()
    }
}

/// How many interfaces the stack `s` leads to visit.
pub open spec fn visits(g: ClassGraph, s: Seq<usize>, bound: int) -> nat
    decreases bound, s.len(),
{
    if s.len() == 0 {
        0
    } else if 0 <= s.last() < bound && s.last() < g.classes@.len() {
        1 + visits(g, g.classes@[s.last() as int].interfaces@, s.last() as int) + visits(
            g,
            s.drop_last(),
            bound,
        )
    } else {
        0
    }
}

/// What `resolve_interface_method` gives for the class at `c`.
pub open spec fn spec_resolve_interface_method(g: ClassGraph, c: int, repr: Seq<char>) -> Result<
    MethodEntry,
    &'static str,
> {
    if !spec_is_interface(g, c) {
        Err("IncompatibleClassChangeError")
    } else if declared(g, c, repr) is Some {
        Ok(declared(g, c, repr).unwrap())
    } else if declared(g, class_named_from(g, "java/lang/Object"@, 0).unwrap(), repr) matches Some(
        m,
    ) && public_instance(m) {
        Ok(declared(g, class_named_from(g, "java/lang/Object"@, 0).unwrap(), repr).unwrap())
    } else {
        let ms = gather(g, g.classes@[c].interfaces@, repr, c);
        if ms.len() == 1 {
            Ok(ms[0])
        } else {
            match first_usable(ms) {
                Some(m) => Ok(m),
                None => Err("NoSuchMethodError"),
            }
        }
    }
}

/// The first of `ms` that is neither private nor static.
pub open spec fn first_usable(ms: Seq<MethodEntry>) -> Option<MethodEntry>
    decreases ms.len(),
{
    if ms.len() == 0 {
        None
    } else if ms[0].access_flags & (acc_private() | acc_static()) == 0 {
        Some(ms[0])
    } else {
        first_usable(ms.drop_first())
    }
}

/// Gathering from two stacks, one on the other, gathers from the upper one first.
pub proof fn lemma_gather_append(
    g: ClassGraph,
    a: Seq<usize>,
    b: Seq<usize>,
    repr: Seq<char>,
    bound: int,
)
    requires
        bound <= g.classes@.len(),
        forall|k: int| 0 <= k < a.len() ==> 0 <= #[trigger] a[k] < bound,
        forall|k: int| 0 <= k < b.len() ==> 0 <= #[trigger] b[k] < bound,
    ensures
        gather(g, a + b, repr, bound) == gather(g, b, repr, bound) + gather(g, a, repr, bound),
        visits(g, a + b, bound) == visits(g, b, bound) + visits(g, a, bound),
    decreases b.len(),
{
    if b.len() == 0 {
        assert(a + b =~= a);
    } else {
        assert((a + b).drop_last() =~= a + b.drop_last());
        assert((a + b).last() == b.last());
        assert(b.last() == b[b.len() - 1]);
        lemma_gather_append(g, a, b.drop_last(), repr, bound);
    }
}

/// Gathering from a stack does not depend on the bound, as long as all of it is below it.
pub proof fn lemma_gather_bound(g: ClassGraph, s: Seq<usize>, repr: Seq<char>, b1: int, b2: int)
    requires
        b1 <= b2,
        forall|k: int| 0 <= k < s.len() ==> 0 <= #[trigger] s[k] < b1,
    ensures
        gather(g, s, repr, b1) == gather(g, s, repr, b2),
        visits(g, s, b1) == visits(g, s, b2),
    decreases s.len(),
{
    if s.len() > 0 {
        assert(s.last() == s[s.len() - 1]);
        lemma_gather_bound(g, s.drop_last(), repr, b1, b2);
    }
}

/// The text that the index `i` of the pool `cp` leads to (see `get_name_cp`).
pub open spec fn cp_text(cp: Seq<CPInfo>, i: int) -> Seq<char> {
    modified_utf8_chars(utf8_reached(cp, i, true, cp.len()).unwrap())
}

/// The text of the entry at the index `i` of the pool `cp` (see `get_name`).
pub open spec fn entry_text(cp: Seq<CPInfo>, i: int) -> Seq<char> {
    modified_utf8_chars(entry_name_bytes(cp, cp_at(cp, i)).unwrap())
}

/// The parsed class `jc` names a superclass: it is not `java/lang/Object` and its
/// `super_class` index is not 0.
pub open spec fn names_super(jc: JavaClass) -> bool {
    cp_text(jc.constant_pool@, jc.this_class@ as int) != "java/lang/Object"@ && jc.super_class@ != 0
}

/// `add_class` can take the parsed class `jc`: its own name, those of its superclass and
/// interfaces, and the names and descriptors of its methods can be read, and its
/// superclass and interfaces are in the graph already.
pub open spec fn add_class_ok(g: ClassGraph, jc: JavaClass) -> bool {
    let cp = jc.constant_pool@;
    &&& g.classes@.len() < usize::MAX
    &&& cp_name_ok(cp, jc.this_class@ as int)
    &&& names_super(jc) ==> cp_name_ok(cp, jc.super_class@ as int) && class_named_from(
        g,
        cp_text(cp, jc.super_class@ as int),
        0,
    ) is Some
    &&& forall|k: int|
        0 <= k < jc.interfaces@.len() ==> cp_name_ok(cp, (#[trigger] jc.interfaces@[k])@ as int)
            && class_named_from(g, cp_text(cp, jc.interfaces@[k]@ as int), 0) is Some
    &&& forall|k: int|
        0 <= k < jc.methods@.len() ==> {
            let mi = #[trigger] jc.methods@[k];
            &&& cp_has(cp, mi.name_index as int)
            &&& entry_name_ok(cp, cp_at(cp, mi.name_index as int))
            &&& cp_has(cp, mi.descriptor_index as int)
            &&& entry_name_ok(cp, cp_at(cp, mi.descriptor_index as int))
        }
}

/// The entry that `add_class` makes of `jc` in the graph `g`, where it takes the place
/// `idx`: `e` holds its access flags and name, the places of its superclass and
/// interfaces, found by name, and its methods under their names and descriptors.
pub open spec fn entry_of(g: ClassGraph, jc: JavaClass, idx: int, e: ClassEntry) -> bool {
    let cp = jc.constant_pool@;
    &&& e.access_flags == jc.access_flags
    &&& e.name@ == cp_text(cp, jc.this_class@ as int)
    &&& e.super_class == if names_super(jc) {
        Some(class_named_from(g, cp_text(cp, jc.super_class@ as int), 0).unwrap() as usize)
    } else {
        None::<usize>
    }
    &&& e.interfaces@.len() == jc.interfaces@.len()
    &&& forall|k: int|
        0 <= k < e.interfaces@.len() ==> #[trigger] e.interfaces@[k] == class_named_from(
            g,
            cp_text(cp, jc.interfaces@[k]@ as int),
            0,
        ).unwrap()
    &&& e.methods@.len() == jc.methods@.len()
    &&& forall|k: int|
        0 <= k < e.methods@.len() ==> {
            &&& (#[trigger] e.methods@[k]).0@ == entry_text(cp, jc.methods@[k].name_index as int)
                + entry_text(cp, jc.methods@[k].descriptor_index as int)
            &&& e.methods@[k].1 == (MethodEntry {
                class: idx as usize,
                access_flags: jc.methods@[k].access_flags,
            })
        }
    &&& e.array_inner is None
}

/// The text of `name` followed by that of `descriptor`.
fn repr_of(name: &str, descriptor: &str) -> (k: Vec<char>)
    ensures
        k@ == name@ + descriptor@,
{
    let mut k = chars_of(name);
    push_str(&mut k, descriptor);
    k
}

impl ClassEntry {
    /// The method kept under `repr`.
    pub fn get_method(&self, repr: &Vec<char>) -> (m: Option<MethodEntry>)
        ensures
            m == method_in(self.methods@, repr@),
    {
        let mut i: usize = self.methods.len();
        proof {
            assert(self.methods@.take(i as int) =~= self.methods@);
        }
        while i > 0
            invariant
                i <= self.methods@.len(),
                method_in(self.methods@, repr@) == method_in(self.methods@.take(i as int), repr@),
            decreases i,
        {
            let key = chars_of(self.methods[i - 1].0.as_str());
            if chars_eq(&key, repr) {
                proof {
                    assert(self.methods@.take(i as int).last() == self.methods@[i - 1]);
                }
                return Some(self.methods[i - 1].1);
            }
            proof {
                assert(self.methods@.take(i as int).drop_last() =~= self.methods@.take(i - 1));
            }
            i = i - 1;
        }
        None
    }

    pub fn is_interface(&self) -> (b: bool)
        ensures
            b == (self.access_flags & acc_interface() != 0),
    {
        self.access_flags & 0x0200 != 0
    }

    /// The name starts with `[`.
    pub fn is_array(&self) -> (b: bool)
        ensures
            b == array_name(self.name@),
    {
        let c = chars_of(self.name.as_str());
        c.len() > 0 && c[0] == '['
    }

    /// Returns true if this class is java.lang.Object
    pub fn is_object(&self) -> (b: bool)
        ensures
            b == (self.name@ == "java/lang/Object"@),
    {
        chars_eq(&chars_of(self.name.as_str()), &chars_of("java/lang/Object"))
    }

    /// The run-time package of the class: what the name holds before its last `/`.
    pub fn get_package(&self) -> (p: &str)
        ensures
            p@ == package(self.name@),
    {
        let c = chars_of(self.name.as_str());
        let mut i: usize = c.len();
        while i > 0 && c[i - 1] != '/'
            invariant
                i <= c@.len(),
                c@ == self.name@,
                last_before(c@, '/', c@.len() as int) == last_before(c@, '/', i as int),
            decreases i,
        {
            i = i - 1;
        }
        if i > 0 {
            self.name.as_str().substring_char(0, i - 1)
        } else {
            proof {
                reveal_strlit("");
            }
            ""
        }
    }
}

impl ClassGraph {
    /// The method found under `repr` in the class at `c` or its superclasses.
    fn lookup_up(&self, c: usize, repr: &Vec<char>) -> (m: Option<MethodEntry>)
        requires
            self.wf(),
            c < self.classes@.len(),
        ensures
            m == lookup_up(*self, c as int, repr@),
    {
        let mut cur = c;
        loop
            invariant
                self.wf(),
                cur < self.classes@.len(),
                lookup_up(*self, c as int, repr@) == lookup_up(*self, cur as int, repr@),
            decreases cur,
        {
            match self.classes[cur].get_method(repr) {
                Some(m) => {
                    return Some(m);
                },
                None => {},
            }
            match self.classes[cur].super_class {
                Some(s) => {
                    cur = s;
                },
                None => {
                    return None;
                },
            }
        }
    }

    /// The one method among the direct superinterfaces of the class at `c` that can stand
    /// in for it; an error where there are two.
    pub fn find_method_superinterface(&self, c: usize, repr: &Vec<char>) -> (r: Result<
        Option<MethodEntry>,
        &'static str,
    >)
        requires
            self.wf(),
            c < self.classes@.len(),
        ensures
            r == superinterface_method(*self, c as int, repr@),
    {
        let ifs = &self.classes[c].interfaces;
        let mut found: Option<MethodEntry> = None;
        let mut k: usize = 0;
        proof {
            assert(ifs@.subrange(0, ifs@.len() as int) =~= ifs@);
        }
        while k < ifs.len()
            invariant
                self.wf(),
                c < self.classes@.len(),
                ifs@ == self.classes@[c as int].interfaces@,
                k <= ifs@.len(),
                scan_interfaces(*self, ifs@, repr@, None) == scan_interfaces(
                    *self,
                    ifs@.subrange(k as int, ifs@.len() as int),
                    repr@,
                    found,
                ),
            decreases ifs@.len() - k,
        {
            let ghost rest = ifs@.subrange(k as int, ifs@.len() as int);
            proof {
                assert(rest.drop_first() =~= ifs@.subrange(k + 1, ifs@.len() as int));
                assert(rest[0] == ifs@[k as int]);
                assert(ifs@[k as int] < c);
            }
            let i = ifs[k];
            match self.classes[i].get_method(repr) {
                Some(m) => {
                    if m.access_flags & 0x0400 == 0 && m.access_flags & (0x0002 | 0x0008) == 0 {
                        if found.is_some() {
                            return Err("IncompatibleClassChangeError");
                        } else {
                            found = Some(m);
                        }
                    }
                },
                None => {},
            }
            k = k + 1;
        }
        Ok(found)
    }

    /// Resolves a method. Returns the name of an Exception if resolution fails.
    pub fn resolve_method(&self, c: usize, name: &str, descriptor: &str) -> (r: Result<
        MethodEntry,
        &'static str,
    >)
        requires
            self.wf(),
            c < self.classes@.len(),
        ensures
            r == spec_resolve_method(*self, c as int, name@ + descriptor@),
    {
        if self.classes[c].is_interface() {
            return Err("IncompatibleClassChangeError");
        }
        let repr = repr_of(name, descriptor);
        match self.lookup_up(c, &repr) {
            Some(m) => Ok(m),
            None => match self.find_method_superinterface(c, &repr)? {
                Some(m) => Ok(m),
                None => Err("NoSuchMethodError"),
            },
        }
    }

    /// Resolves a static method. Returns the name of an Exception if resolution fails.
    pub fn resolve_static_method(&self, c: usize, name: &str, descriptor: &str) -> (r: Result<
        MethodEntry,
        &'static str,
    >)
        requires
            self.wf(),
            c < self.classes@.len(),
        ensures
            r == spec_resolve_method(*self, c as int, name@ + descriptor@),
    {
        if self.classes[c].is_interface() {
            return Err("IncompatibleClassChangeError");
        }
        let repr = repr_of(name, descriptor);
        match self.lookup_up(c, &repr) {
            Some(m) => Ok(m),
            None => match self.find_method_superinterface(c, &repr)? {
                Some(m) => Ok(m),
                None => Err("NoSuchMethodError"),
            },
        }
    }

    /// Goes up the superclass chain to check if the class at `expected` is the class at
    /// `c` or one of its superclasses.
    pub fn is_subclass_of(&self, c: usize, expected: usize) -> (b: bool)
        requires
            self.wf(),
            c < self.classes@.len(),
        ensures
            b == in_super_chain(*self, c as int, expected as int),
    {
        let mut cur = c;
        loop
            invariant
                self.wf(),
                cur < self.classes@.len(),
                in_super_chain(*self, c as int, expected as int) == in_super_chain(
                    *self,
                    cur as int,
                    expected as int,
                ),
            decreases cur,
        {
            if cur == expected {
                return true;
            }
            match self.classes[cur].super_class {
                Some(s) => {
                    cur = s;
                },
                None => {
                    return false;
                },
            }
        }
    }

    /// Checks if the class or interface at `c`, or any of its superinterfaces, is the one
    /// at `expected`.
    pub fn implements(&self, c: usize, expected: usize) -> (b: bool)
        requires
            self.wf(),
            c < self.classes@.len(),
        ensures
            b == spec_implements(*self, c as int, expected as int),
        decreases c,
    {
        if c == expected {
            return true;
        }
        let ifs = &self.classes[c].interfaces;
        let mut k: usize = 0;
        while k < ifs.len()
            invariant
                self.wf(),
                c < self.classes@.len(),
                c != expected,
                ifs@ == self.classes@[c as int].interfaces@,
                k <= ifs@.len(),
                spec_implements(*self, c as int, expected as int) == implements_from(
                    *self,
                    c as int,
                    expected as int,
                    k as int,
                ),
            decreases ifs@.len() - k,
        {
            let i = ifs[k];
            proof {
                assert(ifs@[k as int] < c);
            }
            if self.implements(i, expected) {
                return true;
            }
            k = k + 1;
        }
        false
    }

    /// Goes up the superclass chain of the class at `c` to check if one of them
    /// implements the interface at `expected`.
    pub fn superclass_implements(&self, c: usize, expected: usize) -> (b: bool)
        requires
            self.wf(),
            c < self.classes@.len(),
        ensures
            b == chain_implements(*self, c as int, expected as int),
    {
        let mut cur = c;
        loop
            invariant
                self.wf(),
                cur < self.classes@.len(),
                chain_implements(*self, c as int, expected as int) == chain_implements(
                    *self,
                    cur as int,
                    expected as int,
                ),
            decreases cur,
        {
            if self.implements(cur, expected) {
                return true;
            }
            match self.classes[cur].super_class {
                Some(s) => {
                    cur = s;
                },
                None => {
                    return false;
                },
            }
        }
    }

    /// Returns true if the class at `c` is an instance of the class at `expected`.
    pub fn instanceof(&self, c: usize, expected: usize) -> (b: bool)
        requires
            self.wf(),
            c < self.classes@.len(),
            expected < self.classes@.len(),
        ensures
            b == spec_instanceof(*self, c as int, expected as int),
        decreases c,
    {
        let me = &self.classes[c];
        let ex = &self.classes[expected];
        if me.is_interface() {
            if ex.is_interface() {
                self.implements(c, expected)
            } else {
                ex.is_object()
            }
        } else if me.is_array() {
            if ex.is_interface() {
                let n = chars_of(ex.name.as_str());
                chars_eq(&n, &chars_of("java/lang/Cloneable")) || chars_eq(
                    &n,
                    &chars_of("java/io/Serializable"),
                )
            } else if ex.is_array() {
                match (me.array_inner, ex.array_inner) {
                    (Some(a), Some(b)) => self.instanceof(a, b),
                    _ => me.name == ex.name,
                }
            } else {
                ex.is_object()
            }
        } else if ex.is_interface() {
            self.superclass_implements(c, expected)
        } else {
            self.is_subclass_of(c, expected)
        }
    }

    /// This method should only be used in `invokeinterface` after normal method resolution.
    pub fn resolve_method_invokeinterface(&self, c: usize, name: &str, descriptor: &str) -> (r:
        Result<MethodEntry, &'static str>)
        requires
            self.wf(),
            c < self.classes@.len(),
        ensures
            r == spec_resolve_invokeinterface(*self, c as int, name@ + descriptor@),
    {
        let repr = repr_of(name, descriptor);
        match self.lookup_up(c, &repr) {
            Some(m) => {
                if m.access_flags & 0x0001 == 0 {
                    return Err("IllegalAccessError");
                }
                if m.access_flags & 0x0400 != 0 {
                    return Err("AbstractMethodError");
                }
                Ok(m)
            },
            None => match self.find_method_superinterface(c, &repr)? {
                Some(m) => Ok(m),
                None => Err("AbstractMethodError"),
            },
        }
    }

    /// The place of the first class named `name`, if one is loaded.
    pub fn class_index(&self, name: &str) -> (r: Option<usize>)
        ensures
            r matches Some(i) ==> class_named_from(*self, name@, 0) == Some(i as int),
            r is None ==> class_named_from(*self, name@, 0) is None,
    {
        let key = chars_of(name);
        let mut i: usize = 0;
        while i < self.classes.len()
            invariant
                i <= self.classes@.len(),
                key@ == name@,
                class_named_from(*self, name@, 0) == class_named_from(*self, name@, i as int),
            decreases self.classes@.len() - i,
        {
            if chars_eq(&chars_of(self.classes[i].name.as_str()), &key) {
                return Some(i);
            }
            i = i + 1;
        }
        None
    }

    /// This function should only be used in `invokespecial` after normal method resolution.
    pub fn resolve_method_invokespecial(&self, c: usize, name: &str, descriptor: &str) -> (r:
        Result<MethodEntry, &'static str>)
        requires
            self.wf(),
            c < self.classes@.len(),
            invokespecial_ok(*self, c as int, name@, name@ + descriptor@),
        ensures
            r == spec_resolve_invokespecial(*self, c as int, name@, name@ + descriptor@),
    {
        let repr = repr_of(name, descriptor);
        let nc = chars_of(name);
        let sfx = chars_of("/<init>");
        let init = nc.len() >= sfx.len() && {
            let mut tail: Vec<char> = Vec::new();
            let mut i: usize = nc.len() - sfx.len();
            while i < nc.len()
                invariant
                    nc@.len() >= sfx@.len(),
                    nc.len() - sfx.len() <= i <= nc@.len(),
                    tail@ == nc@.subrange(nc@.len() - sfx@.len(), i as int),
                decreases nc@.len() - i,
            {
                tail.push(nc[i]);
                assert(nc@.subrange(nc@.len() - sfx@.len(), i + 1) =~= nc@.subrange(
                    nc@.len() - sfx@.len(),
                    i as int,
                ).push(nc@[i as int]));
                i = i + 1;
            }
            chars_eq(&tail, &sfx)
        };
        let me = &self.classes[c];
        let t = if !init && !me.is_interface() && (me.access_flags & 0x0020 != 0) {
            me.super_class.unwrap()
        } else {
            c
        };
        proof {
            assert(t == special_target(*self, c as int, name@));
        }
        let found = if !self.classes[t].is_interface() {
            self.lookup_up(t, &repr)
        } else {
            match self.classes[t].get_method(&repr) {
                Some(m) => Some(m),
                None => {
                    let object = self.class_index("java/lang/Object").unwrap();
                    proof {
                        lemma_class_named_bounds(*self, "java/lang/Object"@, 0);
                    }
                    match self.classes[object].get_method(&repr) {
                        Some(m) => if m.access_flags & (0x0001 | 0x0400 | 0x0008) == 0x0001 {
                            Some(m)
                        } else {
                            None
                        },
                        None => None,
                    }
                },
            }
        };
        match found {
            Some(m) => Ok(m),
            None => match self.find_method_superinterface(c, &repr)? {
                Some(m) => Ok(m),
                None => Err("AbstractMethodError"),
            },
        }
    }

    /// The method `m` is not private and can override one of `may`.
    fn may_override(&self, m: MethodEntry, may: &Vec<MethodEntry>) -> (b: bool)
        requires
            self.wf(),
            m.class < self.classes@.len(),
            forall|k: int| 0 <= k < may@.len() ==> (#[trigger] may@[k]).class < self.classes@.len(),
        ensures
            b == can_override(*self, m, may@),
    {
        let mut k: usize = 0;
        while k < may.len()
            invariant
                self.wf(),
                m.class < self.classes@.len(),
                forall|q: int| 0 <= q < may@.len() ==> (#[trigger] may@[q]).class < self.classes@.len(),
                k <= may@.len(),
                forall|q: int|
                    0 <= q < k ==> !(m.access_flags & acc_private() == 0 && overridable_by(
                        *self,
                        #[trigger] may@[q],
                        m,
                    )),
            decreases may@.len() - k,
        {
            let m2 = may[k];
            if m.access_flags & 0x0002 == 0 {
                let pub_prot = m2.access_flags & 0x0001 != 0 || m2.access_flags & 0x0004 != 0;
                if pub_prot {
                    return true;
                }
                if m2.access_flags & 0x0002 == 0 {
                    let p1 = chars_of(self.classes[m.class].get_package());
                    let p2 = chars_of(self.classes[m2.class].get_package());
                    if chars_eq(&p1, &p2) {
                        return true;
                    }
                }
            }
            k = k + 1;
        }
        false
    }

    /// The method that is run for `overridden` on an object of the class at `c`; nothing
    /// where `overridden` is not declared in that class or a superclass.
    pub fn find_override(&self, c: usize, repr: &str, overridden: MethodEntry) -> (r: Option<
        MethodEntry,
    >)
        requires
            self.wf(),
            c < self.classes@.len(),
            overridden.class < self.classes@.len(),
        ensures
            r == spec_find_override(*self, c as int, repr@, overridden),
    {
        let oc = overridden.class;
        if !self.is_subclass_of(c, oc) {
            return None;
        }
        let key = chars_of(repr);
        let ghost whole = chain_below(*self, c as int, oc as int);
        let mut chain: Vec<usize> = Vec::new();
        let mut cur = c;
        proof {
            assert(places(chain@) + whole =~= whole);
        }
        while cur != oc
            invariant
                self.wf(),
                cur < self.classes@.len(),
                in_super_chain(*self, cur as int, oc as int),
                places(chain@) + chain_below(*self, cur as int, oc as int) == whole,
                forall|k: int| 0 <= k < chain@.len() ==> #[trigger] chain@[k] < self.classes@.len(),
            decreases cur,
        {
            let ghost before = chain@;
            chain.push(cur);
            let s = self.classes[cur].super_class.unwrap();
            proof {
                assert(places(chain@) =~= places(before).push(cur as int));
                assert(places(chain@) + chain_below(*self, s as int, oc as int) =~= places(before)
                    + chain_below(*self, cur as int, oc as int));
            }
            cur = s;
        }
        proof {
            assert(places(chain@) =~= whole);
        }
        let ghost rev = whole.reverse();
        let ghost target = override_fold(*self, rev, key@, overridden, seq![overridden]);
        let mut best = overridden;
        let mut may: Vec<MethodEntry> = Vec::new();
        may.push(overridden);
        let mut j: usize = chain.len();
        proof {
            assert(rev.subrange(0, rev.len() as int) =~= rev);
            assert(may@ =~= seq![overridden]);
        }
        while j > 0
            invariant
                self.wf(),
                j <= chain@.len(),
                places(chain@) == whole,
                rev == whole.reverse(),
                key@ == repr@,
                forall|k: int| 0 <= k < chain@.len() ==> #[trigger] chain@[k] < self.classes@.len(),
                forall|q: int| 0 <= q < may@.len() ==> (#[trigger] may@[q]).class < self.classes@.len(),
                target == override_fold(
                    *self,
                    rev.subrange(chain@.len() - j, rev.len() as int),
                    key@,
                    best,
                    may@,
                ),
            decreases j,
        {
            let cl = chain[j - 1];
            let ghost rest = rev.subrange(chain@.len() - j, rev.len() as int);
            proof {
                assert(rest[0] == rev[chain@.len() - j]);
                assert(rev[chain@.len() - j] == whole[j - 1]);
                assert(whole[j - 1] == places(chain@)[j - 1]);
                assert(rest.drop_first() =~= rev.subrange(chain@.len() - (j - 1), rev.len() as int));
                lemma_declared_class(*self, cl as int, key@);
            }
            match self.classes[cl].get_method(&key) {
                Some(m) => {
                    if self.may_override(m, &may) {
                        best = m;
                        may.push(m);
                    }
                },
                None => {},
            }
            j = j - 1;
        }
        Some(best)
    }

    /// This function should only be used in `invokevirtual` after normal method resolution.
    pub fn resolve_method_invokevirtual(
        &self,
        c: usize,
        name: &str,
        descriptor: &str,
        resolved: MethodEntry,
    ) -> (r: Result<MethodEntry, &'static str>)
        requires
            self.wf(),
            c < self.classes@.len(),
            resolved.class < self.classes@.len(),
        ensures
            r == spec_resolve_invokevirtual(*self, c as int, name@ + descriptor@, resolved),
    {
        let repr = repr_of(name, descriptor);
        let s = crate::text::string_from_chars(repr);
        match self.find_override(c, s.as_str(), resolved) {
            Some(m) => if m.access_flags & 0x0400 != 0 {
                Err("AbstractMethodError")
            } else {
                Ok(m)
            },
            None => {
                let repr2 = chars_of(s.as_str());
                match self.find_method_superinterface(c, &repr2)? {
                    Some(m) => Ok(m),
                    None => Err("AbstractMethodError"),
                }
            },
        }
    }

    /// Resolves an interface method. Returns the name of an Exception if resolution fails.
    pub fn resolve_interface_method(&self, c: usize, name: &str, descriptor: &str) -> (r: Result<
        MethodEntry,
        &'static str,
    >)
        requires
            self.wf(),
            c < self.classes@.len(),
            spec_is_interface(*self, c as int) && declared(*self, c as int, name@ + descriptor@)
                is None ==> class_named_from(*self, "java/lang/Object"@, 0) is Some,
        ensures
            r == spec_resolve_interface_method(*self, c as int, name@ + descriptor@),
    {
        if !self.classes[c].is_interface() {
            return Err("IncompatibleClassChangeError");
        }
        let repr = repr_of(name, descriptor);
        if let Some(m) = self.classes[c].get_method(&repr) {
            return Ok(m);
        }
        let object = self.class_index("java/lang/Object").unwrap();
        proof {
            lemma_class_named_bounds(*self, "java/lang/Object"@, 0);
        }
        if let Some(m) = self.classes[object].get_method(&repr) {
            if m.access_flags & (0x0001 | 0x0400 | 0x0008) == 0x0001 {
                return Ok(m);
            }
        }
        let ghost all = gather(*self, self.classes@[c as int].interfaces@, repr@, c as int);
        let mut methods: Vec<MethodEntry> = Vec::new();
        let mut interfaces: Vec<usize> = Vec::new();
        let start = &self.classes[c].interfaces;
        let mut k: usize = 0;
        while k < start.len()
            invariant
                k <= start@.len(),
                interfaces@ == start@.take(k as int),
            decreases start@.len() - k,
        {
            interfaces.push(start[k]);
            assert(start@.take(k + 1) =~= start@.take(k as int).push(start@[k as int]));
            k = k + 1;
        }
        proof {
            assert(start@.take(start@.len() as int) =~= start@);
            assert(methods@ + all =~= all);
        }
        while interfaces.len() > 0
            invariant
                self.wf(),
                c < self.classes@.len(),
                forall|q: int| 0 <= q < interfaces@.len() ==> #[trigger] interfaces@[q] < c,
                methods@ + gather(*self, interfaces@, repr@, c as int) == all,
            decreases visits(*self, interfaces@, c as int),
        {
            let ghost before = interfaces@;
            let ghost done = methods@;
            let i = interfaces.pop().unwrap();
            proof {
                assert(before.drop_last() =~= interfaces@);
                assert(i == before.last());
            }
            let ghost mid = interfaces@;
            let more = &self.classes[i].interfaces;
            let mut q: usize = 0;
            while q < more.len()
                invariant
                    self.wf(),
                    i < c,
                    c < self.classes@.len(),
                    more@ == self.classes@[i as int].interfaces@,
                    q <= more@.len(),
                    interfaces@ == mid + more@.take(q as int),
                    forall|t: int| 0 <= t < mid.len() ==> #[trigger] mid[t] < c,
                decreases more@.len() - q,
            {
                proof {
                    assert(more@[q as int] < i);
                }
                interfaces.push(more[q]);
                assert(mid + more@.take(q + 1) =~= (mid + more@.take(q as int)).push(more@[q as int]));
                q = q + 1;
            }
            proof {
                assert(more@.take(more@.len() as int) =~= more@);
                assert forall|t: int| 0 <= t < more@.len() implies 0 <= #[trigger] more@[t] < c by {
                    assert(more@[t] < i);
                }
                assert(forall|t: int| 0 <= t < mid.len() ==> 0 <= #[trigger] mid[t] < c);
                lemma_gather_append(*self, mid, more@, repr@, c as int);
                assert(forall|t: int| 0 <= t < more@.len() ==> 0 <= #[trigger] more@[t] < i);
                assert(gather(*self, more@, repr@, c as int) == gather(*self, more@, repr@, i as int)) by {
                    lemma_gather_bound(*self, more@, repr@, i as int, c as int);
                }
                assert(visits(*self, more@, c as int) == visits(*self, more@, i as int)) by {
                    lemma_gather_bound(*self, more@, repr@, i as int, c as int);
                }
            }
            match self.classes[i].get_method(&repr) {
                Some(m) => {
                    if m.access_flags & 0x0400 == 0 {
                        methods.push(m);
                    }
                },
                None => {},
            }
            proof {
                assert(before.last() == before[before.len() - 1]);
                assert(gather(*self, before, repr@, c as int) == gather_visit(*self, i as int, repr@)
                    + gather(*self, mid, repr@, c as int));
                assert(gather_visit(*self, i as int, repr@) == gathered_here(*self, i as int, repr@)
                    + gather(*self, more@, repr@, i as int));
                assert(methods@ =~= done + gathered_here(*self, i as int, repr@));
                assert(methods@ + gather(*self, interfaces@, repr@, c as int) =~= done + gather(
                    *self,
                    before,
                    repr@,
                    c as int,
                ));
            }
        }
        proof {
            assert(methods@ =~= all);
        }
        if methods.len() == 1 {
            return Ok(methods[0]);
        }
        let mut j: usize = 0;
        proof {
            assert(methods@.subrange(0, methods@.len() as int) =~= methods@);
        }
        let ghost outcome: Result<MethodEntry, &'static str> = match first_usable(methods@) {
            Some(m) => Ok(m),
            None => Err("NoSuchMethodError"),
        };
        assert(spec_resolve_interface_method(*self, c as int, name@ + descriptor@) == outcome);
        while j < methods.len()
            invariant
                j <= methods@.len(),
                spec_resolve_interface_method(*self, c as int, name@ + descriptor@) == outcome,
                outcome == match first_usable(methods@) {
                    Some(m) => Ok(m),
                    None => Err::<MethodEntry, &'static str>("NoSuchMethodError"),
                },
                first_usable(methods@) == first_usable(methods@.subrange(j as int, methods@.len() as int)),
            decreases methods@.len() - j,
        {
            if methods[j].access_flags & (0x0002 | 0x0008) == 0 {
                proof {
                    assert(methods@.subrange(j as int, methods@.len() as int)[0] == methods@[j as int]);
                }
                return Ok(methods[j]);
            }
            proof {
                assert(methods@.subrange(j as int, methods@.len() as int).drop_first() =~= methods@.subrange(j + 1, methods@.len() as int));
            }
            j = j + 1;
        }
        Err("NoSuchMethodError")
    }

    /// Whether `add_class` can take the parsed class `jc`.
    pub fn can_add(&self, jc: &JavaClass) -> (b: bool)
        ensures
            b == add_class_ok(*self, *jc),
    {
        let cp = &jc.constant_pool;
        if self.classes.len() == usize::MAX {
            return false;
        }
        if !cp_name_readable(cp, jc.this_class.as_u16()) {
            return false;
        }
        let name = get_name_cp(cp, jc.this_class.as_u16());
        let is_object = chars_eq(&chars_of(name.as_str()), &chars_of("java/lang/Object"));
        if !is_object && jc.super_class.as_u16() != 0 {
            if !cp_name_readable(cp, jc.super_class.as_u16()) {
                return false;
            }
            let sn = get_name_cp(cp, jc.super_class.as_u16());
            if self.class_index(sn.as_str()).is_none() {
                return false;
            }
        }
        let mut k: usize = 0;
        while k < jc.interfaces.len()
            invariant
                cp == &jc.constant_pool,
                k <= jc.interfaces@.len(),
                forall|q: int|
                    0 <= q < k ==> cp_name_ok(cp@, (#[trigger] jc.interfaces@[q])@ as int)
                        && class_named_from(*self, cp_text(cp@, jc.interfaces@[q]@ as int), 0) is Some,
            decreases jc.interfaces@.len() - k,
        {
            let i = jc.interfaces[k].as_u16();
            if !cp_name_readable(cp, i) {
                return false;
            }
            let n = get_name_cp(cp, i);
            if self.class_index(n.as_str()).is_none() {
                return false;
            }
            k = k + 1;
        }
        let mut q: usize = 0;
        while q < jc.methods.len()
            invariant
                cp == &jc.constant_pool,
                q <= jc.methods@.len(),
                forall|t: int|
                    0 <= t < q ==> {
                        let mi = #[trigger] jc.methods@[t];
                        &&& cp_has(cp@, mi.name_index as int)
                        &&& entry_name_ok(cp@, cp_at(cp@, mi.name_index as int))
                        &&& cp_has(cp@, mi.descriptor_index as int)
                        &&& entry_name_ok(cp@, cp_at(cp@, mi.descriptor_index as int))
                    },
            decreases jc.methods@.len() - q,
        {
            if !entry_name_readable(cp, jc.methods[q].name_index) || !entry_name_readable(
                cp,
                jc.methods[q].descriptor_index,
            ) {
                return false;
            }
            q = q + 1;
        }
        true
    }

    /// Adds the parsed class `jc` (not an array class) after the classes there are, and
    /// gives its place.
    pub fn add_class(&mut self, jc: &JavaClass) -> (idx: usize)
        requires
            old(self).wf(),
            add_class_ok(*old(self), *jc),
        ensures
            final(self).wf(),
            idx == old(self).classes@.len(),
            final(self).classes@.len() == old(self).classes@.len() + 1,
            final(self).classes@.drop_last() == old(self).classes@,
            entry_of(*old(self), *jc, idx as int, final(self).classes@[idx as int]),
    {
        let cp = &jc.constant_pool;
        let idx = self.classes.len();
        let name = get_name_cp(cp, jc.this_class.as_u16());
        let is_object = chars_eq(&chars_of(name.as_str()), &chars_of("java/lang/Object"));
        let super_class = if is_object || jc.super_class.as_u16() == 0 {
            None
        } else {
            let sn = get_name_cp(cp, jc.super_class.as_u16());
            proof {
                lemma_class_named_bounds(*self, sn@, 0);
            }
            Some(self.class_index(sn.as_str()).unwrap())
        };
        let mut interfaces: Vec<usize> = Vec::new();
        let mut k: usize = 0;
        while k < jc.interfaces.len()
            invariant
                self.wf(),
                idx == self.classes@.len(),
                add_class_ok(*self, *jc),
                cp == &jc.constant_pool,
                k <= jc.interfaces@.len(),
                interfaces@.len() == k,
                forall|q: int|
                    0 <= q < k ==> #[trigger] interfaces@[q] == class_named_from(
                        *self,
                        cp_text(cp@, jc.interfaces@[q]@ as int),
                        0,
                    ).unwrap() && interfaces@[q] < idx,
            decreases jc.interfaces@.len() - k,
        {
            let n = get_name_cp(cp, jc.interfaces[k].as_u16());
            proof {
                lemma_class_named_bounds(*self, n@, 0);
            }
            interfaces.push(self.class_index(n.as_str()).unwrap());
            k = k + 1;
        }
        let mut methods: Vec<(String, MethodEntry)> = Vec::new();
        let mut q: usize = 0;
        while q < jc.methods.len()
            invariant
                add_class_ok(*self, *jc),
                cp == &jc.constant_pool,
                q <= jc.methods@.len(),
                methods@.len() == q,
                forall|t: int|
                    0 <= t < q ==> {
                        &&& (#[trigger] methods@[t]).0@ == entry_text(
                            cp@,
                            jc.methods@[t].name_index as int,
                        ) + entry_text(cp@, jc.methods@[t].descriptor_index as int)
                        &&& methods@[t].1 == (MethodEntry {
                            class: idx,
                            access_flags: jc.methods@[t].access_flags,
                        })
                    },
            decreases jc.methods@.len() - q,
        {
            let mi = &jc.methods[q];
            proof {
                CPIndex::lemma_new_view(mi.name_index);
                CPIndex::lemma_new_view(mi.descriptor_index);
            }
            let n = get_name(jc, cp.index(mi.name_index.into()));
            let d = get_name(jc, cp.index(mi.descriptor_index.into()));
            let mut r = chars_of(n.as_str());
            push_str(&mut r, d.as_str());
            methods.push(
                (
                    crate::text::string_from_chars(r),
                    MethodEntry { class: idx, access_flags: mi.access_flags },
                ),
            );
            q = q + 1;
        }
        let ghost before = *self;
        let entry = ClassEntry {
            access_flags: jc.access_flags,
            name,
            super_class,
            interfaces,
            methods,
            array_inner: None,
        };
        proof {
            if names_super(*jc) {
                lemma_class_named_bounds(*self, cp_text(cp@, jc.super_class@ as int), 0);
            }
            assert(entry_of(before, *jc, idx as int, entry));
        }
        self.classes.push(entry);
        proof {
            assert(self.classes@.drop_last() =~= before.classes@);
            assert forall|c: int| 0 <= c < self.classes@.len() implies {
                let e = #[trigger] self.classes@[c];
                &&& (e.super_class matches Some(s) ==> s < c)
                &&& (e.array_inner matches Some(a) ==> a < c)
                &&& forall|k: int| 0 <= k < e.interfaces@.len() ==> #[trigger] e.interfaces@[k] < c
                &&& forall|k: int|
                    0 <= k < e.methods@.len() ==> (#[trigger] e.methods@[k]).1.class
                        < self.classes@.len()
            } by {
                if c < idx {
                    assert(self.classes@[c] == before.classes@[c]);
                }
            }
        }
        idx
    }
}

/// Every loaded class is its own subclass, and being a subclass is transitive: a subclass
/// of a subclass of a class is a subclass of that class.
pub proof fn law_subclass_order(g: ClassGraph, a: int, b: int, c: int)
    requires
        g.wf(),
        0 <= a < g.classes@.len(),
    ensures
        in_super_chain(g, a, a),
        in_super_chain(g, a, b) && in_super_chain(g, b, c) ==> in_super_chain(g, a, c),
    decreases a,
{
    if a != b && in_super_chain(g, a, b) {
        let s = g.classes@[a].super_class.unwrap() as int;
        law_subclass_order(g, s, b, c);
    }
}

/// A class (neither an interface nor an array class) is an instance of every interface
/// that its superclass is an instance of.
pub proof fn law_interfaces_are_inherited(g: ClassGraph, c: int, e: int)
    requires
        g.wf(),
        0 <= c < g.classes@.len(),
        0 <= e < g.classes@.len(),
        !spec_is_interface(g, c),
        !array_name(name_of(g, c)),
        spec_is_interface(g, e),
        g.classes@[c].super_class matches Some(s) && !spec_is_interface(g, s as int) && !array_name(
            name_of(g, s as int),
        ) && spec_instanceof(g, s as int, e),
    ensures
        spec_instanceof(g, c, e),
{
    let s = g.classes@[c].super_class.unwrap() as int;
    assert(s < c);
    assert(chain_implements(g, s, e));
}

/// Every array class is an instance of `java/lang/Cloneable` and of `java/io/Serializable`
/// (the interfaces that arrays implement) and of `java/lang/Object`, and of no other
/// interface.
pub proof fn law_arrays_are_cloneable_and_serializable(g: ClassGraph, c: int, e: int)
    requires
        g.wf(),
        0 <= c < g.classes@.len(),
        0 <= e < g.classes@.len(),
        !spec_is_interface(g, c),
        array_name(name_of(g, c)),
    ensures
        spec_is_interface(g, e) ==> (spec_instanceof(g, c, e) <==> (name_of(g, e)
            == "java/lang/Cloneable"@ || name_of(g, e) == "java/io/Serializable"@)),
        !spec_is_interface(g, e) && name_of(g, e) == "java/lang/Object"@ ==> spec_instanceof(
            g,
            c,
            e,
        ),
{
    reveal_strlit("java/lang/Object");
    reveal_strlit("java/lang/Cloneable");
    reveal_strlit("java/io/Serializable");
    if !spec_is_interface(g, e) && name_of(g, e) == "java/lang/Object"@ {
        assert(!array_name(name_of(g, e)));
    }
}

/// The rules of `instanceof` (JVMS §6.5 `instanceof`, for a class `c` and a type `e`):
/// a class that is neither an interface nor an array is an instance of the classes on its
/// superclass chain and of the interfaces that it or a superclass implements; an interface
/// is an instance of the interfaces it extends, however far up, and of `java/lang/Object`
/// alone among the classes; an array is an instance of `java/lang/Object`, and of an array
/// type whose element type its own element type is an instance of.
pub proof fn law_instanceof_rules(g: ClassGraph, c: int, e: int)
    requires
        g.wf(),
        0 <= c < g.classes@.len(),
        0 <= e < g.classes@.len(),
    ensures
        !spec_is_interface(g, c) && !array_name(name_of(g, c)) && !spec_is_interface(g, e) ==> (
        spec_instanceof(g, c, e) <==> in_super_chain(g, c, e)),
        !spec_is_interface(g, c) && !array_name(name_of(g, c)) && spec_is_interface(g, e) ==> (
        spec_instanceof(g, c, e) <==> chain_implements(g, c, e)),
        spec_is_interface(g, c) && spec_is_interface(g, e) ==> (spec_instanceof(g, c, e)
            <==> spec_implements(g, c, e)),
        spec_is_interface(g, c) && !spec_is_interface(g, e) ==> (spec_instanceof(g, c, e) <==> name_of(
            g,
            e,
        ) == "java/lang/Object"@),
        !spec_is_interface(g, c) && array_name(name_of(g, c)) && !spec_is_interface(g, e)
            && !array_name(name_of(g, e)) ==> (spec_instanceof(g, c, e) <==> name_of(g, e)
            == "java/lang/Object"@),
        !spec_is_interface(g, c) && array_name(name_of(g, c)) && !spec_is_interface(g, e)
            && array_name(name_of(g, e)) && g.classes@[c].array_inner is Some
            && g.classes@[e].array_inner is Some ==> (spec_instanceof(g, c, e) <==> spec_instanceof(
            g,
            g.classes@[c].array_inner.unwrap() as int,
            g.classes@[e].array_inner.unwrap() as int,
        )),
{
}

/// The method lookup up the superclass chain finds the declaration in the nearest class of
/// the chain of `c` (the class itself first) that declares the method, and nothing where
/// no class of the chain declares it.
pub proof fn law_lookup_nearest(g: ClassGraph, c: int, repr: Seq<char>)
    requires
        g.wf(),
        0 <= c < g.classes@.len(),
    ensures
        lookup_up(g, c, repr) matches Some(m) ==> exists|d: int|
            in_super_chain(g, c, d) && #[trigger] declared(g, d, repr) == Some(m) && forall|e: int|
                in_super_chain(g, c, e) && in_super_chain(g, e, d) && e != d ==> (#[trigger] declared(
                    g,
                    e,
                    repr,
                )) is None,
        lookup_up(g, c, repr) is None ==> forall|d: int| in_super_chain(g, c, d) ==> (#[trigger] declared(
            g,
            d,
            repr,
        )) is None,
    decreases c,
{
    if declared(g, c, repr) is Some {
        assert(in_super_chain(g, c, c));
        assert forall|e: int| in_super_chain(g, c, e) && in_super_chain(g, e, c) && e != c implies (
        #[trigger] declared(g, e, repr)) is None by {
            lemma_chain_below(g, c, e);
            lemma_chain_below(g, e, c);
        }
    } else {
        match g.classes@[c].super_class {
            Some(sc) => {
                let s = sc as int;
                law_lookup_nearest(g, s, repr);
                if let Some(m) = lookup_up(g, s, repr) {
                    let d = choose|d: int|
                        in_super_chain(g, s, d) && #[trigger] declared(g, d, repr) == Some(m)
                            && forall|e: int|
                            in_super_chain(g, s, e) && in_super_chain(g, e, d) && e != d ==> (
                            #[trigger] declared(g, e, repr)) is None;
                    assert(in_super_chain(g, c, d));
                    assert forall|e: int| in_super_chain(g, c, e) && in_super_chain(g, e, d) && e != d implies (
                    #[trigger] declared(g, e, repr)) is None by {
                        if e != c {
                            assert(in_super_chain(g, s, e));
                        }
                    }
                } else {
                    assert forall|d: int| in_super_chain(g, c, d) implies (#[trigger] declared(g, d, repr)) is None by {
                        if d != c {
                            assert(in_super_chain(g, s, d));
                        }
                    }
                }
            },
            None => {
                assert forall|d: int| in_super_chain(g, c, d) implies (#[trigger] declared(g, d, repr)) is None by {
                }
            },
        }
    }
}

/// A class on the superclass chain of `c` comes no later than `c`.
proof fn lemma_chain_below(g: ClassGraph, c: int, d: int)
    requires
        g.wf(),
        in_super_chain(g, c, d),
    ensures
        d <= c,
    decreases c,
{
    if c != d {
        let s = g.classes@[c].super_class.unwrap() as int;
        lemma_chain_below(g, s, d);
    }
}

/// Method resolution (JVMS §5.4.3.3) on a class: an interface gives an
/// `IncompatibleClassChangeError`; otherwise the nearest declaration on the superclass
/// chain wins; where the chain declares nothing and no superinterface gives a method, a
/// `NoSuchMethodError`.
pub proof fn law_method_resolution(g: ClassGraph, c: int, repr: Seq<char>)
    requires
        g.wf(),
        0 <= c < g.classes@.len(),
    ensures
        spec_is_interface(g, c) ==> spec_resolve_method(g, c, repr) == Err::<MethodEntry, &'static str>(
            "IncompatibleClassChangeError",
        ),
        !spec_is_interface(g, c) && (exists|d: int| in_super_chain(g, c, d) && (#[trigger] declared(g, d, repr)) is Some)
            ==> (spec_resolve_method(g, c, repr) matches Ok(m) && exists|d: int|
            in_super_chain(g, c, d) && #[trigger] declared(g, d, repr) == Some(m) && forall|e: int|
                in_super_chain(g, c, e) && in_super_chain(g, e, d) && e != d ==> (#[trigger] declared(
                    g,
                    e,
                    repr,
                )) is None),
        !spec_is_interface(g, c) && (forall|d: int| in_super_chain(g, c, d) ==> (#[trigger] declared(g, d, repr)) is None)
            && superinterface_method(g, c, repr) == Ok::<Option<MethodEntry>, &'static str>(None)
            ==> spec_resolve_method(g, c, repr) == Err::<MethodEntry, &'static str>("NoSuchMethodError"),
{
    law_lookup_nearest(g, c, repr);
}

/// The run-time package of a class name is the part of the name before its last `/`: the
/// name holds a `/` right after it and none further on; a name without `/` has the empty
/// package.
pub proof fn law_package(n: Seq<char>)
    ensures
        package(n).len() <= n.len(),
        package(n) == n.subrange(0, package(n).len() as int),
        (exists|i: int| 0 <= i < n.len() && n[i] == '/') ==> n[package(n).len() as int] == '/'
            && forall|j: int| package(n).len() < j < n.len() ==> n[j] != '/',
        (forall|i: int| 0 <= i < n.len() ==> n[i] != '/') ==> package(n) == Seq::<char>::empty(),
{
    lemma_last_before(n, n.len() as int);
    let k = last_before(n, '/', n.len() as int);
    if k >= 0 {
        assert(n.subrange(0, k) =~= n.subrange(0, k).subrange(0, k));
    } else {
        assert forall|i: int| 0 <= i < n.len() implies n[i] != '/' by {}
    }
}

/// `last_before(n, '/', i)` is the last position before `i` that holds a `/`, or -1.
proof fn lemma_last_before(n: Seq<char>, i: int)
    requires
        0 <= i <= n.len(),
    ensures
        -1 <= last_before(n, '/', i) < i,
        last_before(n, '/', i) >= 0 ==> n[last_before(n, '/', i)] == '/',
        forall|j: int| last_before(n, '/', i) < j < i ==> n[j] != '/',
    decreases i,
{
    if i > 0 && n[i - 1] != '/' {
        lemma_last_before(n, i - 1);
    }
}

/// Every loaded class is an instance of itself.
pub proof fn law_instanceof_reflexive(g: ClassGraph, c: int)
    requires
        g.wf(),
        0 <= c < g.classes@.len(),
    ensures
        spec_instanceof(g, c, c),
    decreases c,
{
    law_subclass_order(g, c, c, c);
    if !spec_is_interface(g, c) && array_name(name_of(g, c)) {
        if let Some(a) = g.classes@[c].array_inner {
            law_instanceof_reflexive(g, a as int);
        }
    }
}

} // verus!
