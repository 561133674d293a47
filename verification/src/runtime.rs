//! What the virtual machine works out while it loads classes: names found through the
//! constant pool, the types in method descriptors, the code of a method, and which class
//! to load next.
use vstd::prelude::*;
use vstd::std_specs::iter::IteratorSpec;
use crate::attributes::Attribute;
use crate::class::{read_string, JavaClass};
use crate::cp::{cp_at, cp_has, CPIndex, ConstantPool};
use crate::cp_info::CPInfo;
use crate::mutf8::modified_utf8_chars;
use crate::opcodes::{opcode_copy_of, Opcode};
use crate::names::find_from;
use crate::text::{chars_eq, chars_of, string_from_chars};
use std::str::Chars;

verus! {

broadcast use {vstd::string::next_postcondition, vstd::string::axiom_spec_iter};

/// The bytes of the `Utf8` entry that the entry at `index` leads to, following `Class`
/// entries (and `String` entries too where `strings` holds) at most `fuel` times.
pub open spec fn utf8_reached(cp: Seq<CPInfo>, index: int, strings: bool, fuel: nat) -> Option<
    Seq<u8>,
>
    decreases fuel,
{
    if !cp_has(cp, index) {
        None
    } else {
        match cp_at(cp, index) {
            CPInfo::Utf8 { bytes, .. } => Some(bytes@),
            CPInfo::Class { name_index } => if fuel == 0 {
                None
            } else {
                utf8_reached(cp, name_index as int, strings, (fuel - 1) as nat)
            },
            CPInfo::String { string_index } => if fuel == 0 || !strings {
                None
            } else {
                utf8_reached(cp, string_index as int, strings, (fuel - 1) as nat)
            },
            _ => None,
        }
    }
}

/// The bytes that `get_name` reads for the entry `info`: its own, for a `Utf8` entry, or
/// those reached from the index of a `Class` entry.
pub open spec fn entry_name_bytes(cp: Seq<CPInfo>, info: CPInfo) -> Option<Seq<u8>> {
    match info {
        CPInfo::Utf8 { bytes, .. } => Some(bytes@),
        CPInfo::Class { name_index } => utf8_reached(cp, name_index as int, false, cp.len()),
        _ => None,
    }
}

/// `get_name_cp` can run for `index`: it leads to a `Utf8` entry, through fewer steps than
/// the pool has entries (a longer chain goes round for ever).
pub open spec fn cp_name_ok(cp: Seq<CPInfo>, index: int) -> bool {
    utf8_reached(cp, index, true, cp.len()) is Some
}

/// `get_name` can run for `info`: it is a `Utf8` entry, or a `Class` entry that leads to one.
pub open spec fn entry_name_ok(cp: Seq<CPInfo>, info: CPInfo) -> bool {
    entry_name_bytes(cp, info) is Some
}

/// Follows the entry at `index` through `Class` (and, where `strings` holds, `String`)
/// entries to a `Utf8` entry and reads its text.
fn name_through(cp: &ConstantPool, index: u16, strings: bool) -> (s: String)
    requires
        utf8_reached(cp@, index as int, strings, cp@.len()) is Some,
    ensures
        s@ == modified_utf8_chars(utf8_reached(cp@, index as int, strings, cp@.len()).unwrap()),
{
    let ghost target = utf8_reached(cp@, index as int, strings, cp@.len());
    let mut i: u16 = index;
    let ghost mut fuel: nat = cp@.len();
    loop
        invariant
            utf8_reached(cp@, i as int, strings, fuel) == target,
            target == utf8_reached(cp@, index as int, strings, cp@.len()),
            target is Some,
        decreases fuel,
    {
        proof {
            CPIndex::lemma_new_view(i);
        }
        match cp.index(i.into()) {
            CPInfo::Class { name_index } => {
                i = *name_index;
                proof {
                    fuel = (fuel - 1) as nat;
                }
            },
            CPInfo::String { string_index } => {
                i = *string_index;
                proof {
                    fuel = (fuel - 1) as nat;
                }
            },
            CPInfo::Utf8 { bytes, .. } => {
                return read_string(bytes.as_slice());
            },
            _ => {
                proof {
                    assert(false);
                }
                return String::new();
            },
        }
    }
}

/// helper function to get the names of values from a "wrapper" CPInfo struct such as CPInfo::Class
pub fn get_name(class: &JavaClass, info: &CPInfo) -> (s: String)
    requires
        entry_name_ok(class.constant_pool@, *info),
    ensures
        s@ == modified_utf8_chars(entry_name_bytes(class.constant_pool@, *info).unwrap()),
{
    match info {
        CPInfo::Class { name_index } => name_through(&class.constant_pool, *name_index, false),
        CPInfo::Utf8 { bytes, .. } => read_string(bytes.as_slice()),
        _ => {
            proof {
                assert(false);
            }
            String::new()
        },
    }
}

/// The text that the entry at `index` leads to, through `Class` and `String` entries.
pub fn get_name_cp(cp: &ConstantPool, index: u16) -> (s: String)
    requires
        cp_name_ok(cp@, index as int),
    ensures
        s@ == modified_utf8_chars(utf8_reached(cp@, index as int, true, cp@.len()).unwrap()),
{
    name_through(cp, index, true)
}

/// Whether the entry at `index` leads, through `Class` (and, where `strings` holds,
/// `String`) entries, to a `Utf8` entry.
fn reaches_utf8(cp: &ConstantPool, index: u16, strings: bool) -> (b: bool)
    ensures
        b == utf8_reached(cp@, index as int, strings, cp@.len()) is Some,
{
    let ghost target = utf8_reached(cp@, index as int, strings, cp@.len());
    let mut i: u16 = index;
    let mut fuel: usize = cp.items().len();
    loop
        invariant
            utf8_reached(cp@, i as int, strings, fuel as nat) == target,
            target == utf8_reached(cp@, index as int, strings, cp@.len()),
        decreases fuel,
    {
        match cp.get(i) {
            None => {
                return false;
            },
            Some(CPInfo::Utf8 { .. }) => {
                return true;
            },
            Some(CPInfo::Class { name_index }) => {
                if fuel == 0 {
                    return false;
                }
                i = *name_index;
                fuel = fuel - 1;
            },
            Some(CPInfo::String { string_index }) => {
                if fuel == 0 || !strings {
                    return false;
                }
                i = *string_index;
                fuel = fuel - 1;
            },
            Some(_) => {
                return false;
            },
        }
    }
}

/// Whether `get_name_cp` can run for `index`.
pub fn cp_name_readable(cp: &ConstantPool, index: u16) -> (b: bool)
    ensures
        b == cp_name_ok(cp@, index as int),
{
    reaches_utf8(cp, index, true)
}

/// Whether the entry at `index` is there and `get_name` can run for it.
pub fn entry_name_readable(cp: &ConstantPool, index: u16) -> (b: bool)
    ensures
        b == (cp_has(cp@, index as int) && entry_name_ok(cp@, cp_at(cp@, index as int))),
{
    match cp.get(index) {
        Some(CPInfo::Utf8 { .. }) => true,
        Some(CPInfo::Class { name_index }) => reaches_utf8(cp, *name_index, false),
        _ => false,
    }
}

/// What the virtual machine keeps of a method's `Code` attribute.
#[derive(Debug)]
pub struct MethodCode {
    pub max_stack: usize,
    pub max_locals: usize,
    pub code: Vec<Opcode>,
    pub exception_table: (),
    pub code_attrs: (),
    pub synthetic: bool,
    pub deprecated: bool,
}

impl MethodCode {
    /// Takes the limits and a copy of the instructions of a `Code` attribute, and whether
    /// its own attributes mark it synthetic or deprecated.
    pub fn new(attr: &Attribute) -> (m: MethodCode)
        requires
            attr is Code,
        ensures
            m.max_stack == attr->Code_max_stack,
            m.max_locals == attr->Code_max_locals,
            m.code@.len() == attr->Code_code@.len(),
            forall|i: int|
                0 <= i < m.code@.len() ==> opcode_copy_of(
                    #[trigger] m.code@[i],
                    attr->Code_code@[i],
                ),
            m.synthetic == exists|i: int|
                0 <= i < attr->Code_attributes@.len() && #[trigger] attr->Code_attributes@[i] is Synthetic,
            m.deprecated == exists|i: int|
                0 <= i < attr->Code_attributes@.len() && #[trigger] attr->Code_attributes@[i] is Deprecated,
    {
        match attr {
            Attribute::Code { max_locals, max_stack, code, exception_table: _, attributes } => {
                let mut copy: Vec<Opcode> = Vec::new();
                let mut i: usize = 0;
                while i < code.len()
                    invariant
                        i <= code@.len(),
                        copy@.len() == i,
                        forall|j: int| 0 <= j < i ==> opcode_copy_of(#[trigger] copy@[j], code@[j]),
                    decreases code@.len() - i,
                {
                    copy.push(code[i].clone());
                    i = i + 1;
                }
                let mut synthetic = false;
                let mut deprecated = false;
                let mut k: usize = 0;
                while k < attributes.len()
                    invariant
                        k <= attributes@.len(),
                        synthetic == exists|j: int| 0 <= j < k && #[trigger] attributes@[j] is Synthetic,
                        deprecated == exists|j: int| 0 <= j < k && #[trigger] attributes@[j] is Deprecated,
                    decreases attributes@.len() - k,
                {
                    match &attributes[k] {
                        Attribute::Synthetic => {
                            synthetic = true;
                        },
                        Attribute::Deprecated => {
                            deprecated = true;
                        },
                        _ => {},
                    }
                    k = k + 1;
                }
                MethodCode {
                    max_stack: *max_stack as usize,
                    max_locals: *max_locals as usize,
                    code: copy,
                    exception_table: (),
                    code_attrs: (),
                    synthetic,
                    deprecated,
                }
            },
            _ => {
                proof {
                    assert(false);
                }
                MethodCode {
                    max_stack: 0,
                    max_locals: 0,
                    code: Vec::new(),
                    exception_table: (),
                    code_attrs: (),
                    synthetic: false,
                    deprecated: false,
                }
            },
        }
    }
}

/// What `parse_type` reads for a type that begins with `start` and goes on in `s`: the
/// type's name (an array keeps its `[`, a class loses its `L` and `;`) and how many
/// characters of `s` it takes, or `None` where `s` ends too soon.
pub open spec fn parsed_type(start: char, s: Seq<char>) -> Option<(Seq<char>, int)>
    decreases s.len(),
{
    if start == '[' {
        if s.len() == 0 {
            None
        } else {
            match parsed_type(s[0], s.drop_first()) {
                Some((t, k)) => Some((seq!['['] + t, k + 1)),
                None => None,
            }
        }
    } else if start == 'L' {
        if find_from(s, ';', 0) < s.len() {
            Some((s.subrange(0, find_from(s, ';', 0)), find_from(s, ';', 0) + 1))
        } else {
            None
        }
    } else {
        Some((seq![start], 0))
    }
}

/// `parse_type` takes no more characters than `s` holds.
pub proof fn lemma_parsed_type_taken(start: char, s: Seq<char>)
    requires
        parsed_type(start, s) is Some,
    ensures
        0 <= parsed_type(start, s).unwrap().1 <= s.len(),
    decreases s.len(),
{
    if start == '[' {
        lemma_parsed_type_taken(s[0], s.drop_first());
    } else if start == 'L' {
        crate::names::lemma_find_from_bounds(s, ';', 0);
    }
}

/// Reads the rest of a type that begins with `start` from `chars` (see `parsed_type`).
fn parse_type(start: char, chars: &mut Chars) -> (t: String)
    requires
        (*old(chars)).decrease() is Some,
        parsed_type(start, (*old(chars)).remaining()) is Some,
    ensures
        (*final(chars)).decrease() is Some,
        (*final(chars)).decrease()->0 <= (*old(chars)).decrease()->0,
        t@ == parsed_type(start, (*old(chars)).remaining()).unwrap().0,
        (*final(chars)).remaining() == (*old(chars)).remaining().subrange(
            parsed_type(start, (*old(chars)).remaining()).unwrap().1,
            (*old(chars)).remaining().len() as int,
        ),
{
    let ghost s0 = (*chars).remaining();
    let ghost d0 = (*chars).decrease()->0;
    let ghost whole = parsed_type(start, s0).unwrap();
    let mut ans: Vec<char> = Vec::new();
    let mut c = start;
    let ghost mut taken: int = 0;
    proof {
        assert(s0.subrange(0, s0.len() as int) =~= s0);
        assert(ans@ + whole.0 =~= whole.0);
    }
    while c == '['
        invariant
            (*chars).decrease() is Some,
            (*chars).decrease()->0 <= d0,
            0 <= taken <= s0.len(),
            (*chars).remaining() == s0.subrange(taken, s0.len() as int),
            parsed_type(c, s0.subrange(taken, s0.len() as int)) is Some,
            whole.0 == ans@ + parsed_type(c, s0.subrange(taken, s0.len() as int)).unwrap().0,
            whole.1 == parsed_type(c, s0.subrange(taken, s0.len() as int)).unwrap().1 + taken,
        decreases (*chars).decrease()->0,
    {
        let ghost rest = s0.subrange(taken, s0.len() as int);
        ans.push('[');
        c = chars.next().unwrap();
        proof {
            assert(rest.drop_first() =~= s0.subrange(taken + 1, s0.len() as int));
            taken = taken + 1;
            assert(ans@ + parsed_type(c, s0.subrange(taken, s0.len() as int)).unwrap().0 =~= ans@.drop_last() + (seq!['['] + parsed_type(c, s0.subrange(taken, s0.len() as int)).unwrap().0));
        }
    }
    if c == 'L' {
        let ghost rest = s0.subrange(taken, s0.len() as int);
        let ghost start_len = ans@.len();
        let ghost j = find_from(rest, ';', 0);
        proof {
            crate::names::lemma_find_from_bounds(rest, ';', 0);
        }
        let mut done = false;
        while !done
            invariant
                (*chars).decrease() is Some,
                (*chars).decrease()->0 <= d0,
                0 <= taken <= s0.len(),
                rest == s0.subrange(taken, s0.len() as int),
                j == find_from(rest, ';', 0),
                0 <= j < rest.len(),
                forall|q: int| 0 <= q < j ==> rest[q] != ';',
                rest[j] == ';',
                whole == (ans@.subrange(0, start_len as int) + rest.subrange(0, j), j + 1 + taken),
                start_len <= ans@.len(),
                !done ==> ans@.len() - start_len <= j && ans@ == ans@.subrange(0, start_len as int)
                    + rest.subrange(0, ans@.len() - start_len) && (*chars).remaining()
                    == rest.subrange(ans@.len() - start_len, rest.len() as int),
                done ==> ans@ == whole.0 && (*chars).remaining() == s0.subrange(
                    whole.1,
                    s0.len() as int,
                ),
            decreases (if done { 0int } else { 1int }), (*chars).decrease()->0,
        {
            let ghost m = ans@.len() - start_len;
            let ghost before = ans@;
            let d = chars.next().unwrap();
            if d == ';' {
                proof {
                    assert(m == j);
                    assert(ans@ =~= before.subrange(0, start_len as int) + rest.subrange(0, j));
                    assert((*chars).remaining() =~= s0.subrange(whole.1, s0.len() as int));
                }
                done = true;
            } else {
                ans.push(d);
                proof {
                    assert(ans@.subrange(0, start_len as int) =~= before.subrange(0, start_len as int));
                    assert(ans@ =~= ans@.subrange(0, start_len as int) + rest.subrange(0, m + 1));
                    assert((*chars).remaining() =~= rest.subrange(m + 1, rest.len() as int));
                }
            }
        }
        string_from_chars(ans)
    } else {
        ans.push(c);
        proof {
            assert((*chars).remaining() =~= s0.subrange(whole.1, s0.len() as int));
        }
        string_from_chars(ans)
    }
}

/// What `parse_parameters_return` reads from `s`, the descriptor after its opening
/// character: the parameter types up to a `)`, then the return type after it; `None`
/// where `s` ends too soon.
pub open spec fn parsed_params(s: Seq<char>) -> Option<(Seq<Seq<char>>, Seq<char>)>
    decreases s.len(),
{
    if s.len() == 0 {
        None
    } else if s[0] == ')' {
        if s.len() < 2 {
            None
        } else {
            match parsed_type(s[1], s.subrange(2, s.len() as int)) {
                Some((t, _)) => Some((Seq::empty(), t)),
                None => None,
            }
        }
    } else {
        match parsed_type(s[0], s.drop_first()) {
            Some((t, k)) => if 0 <= k <= s.len() - 1 {
                match parsed_params(s.subrange(1 + k, s.len() as int)) {
                    Some((ps, r)) => Some((seq![t] + ps, r)),
                    None => None,
                }
            } else {
                None
            },
            None => None,
        }
    }
}

/// The parameter types and the return type of a method descriptor such as `(I[J)V`
/// (its first character, the `(`, is skipped whatever it is).
pub open spec fn parsed_signature(sig: Seq<char>) -> Option<(Seq<Seq<char>>, Seq<char>)> {
    parsed_params(
        if sig.len() > 0 {
            sig.drop_first()
        } else {
            sig
        },
    )
}

/// The texts of `v`.
pub open spec fn strings_of(v: Seq<String>) -> Seq<Seq<char>> {
    v.map_values(|s: String| s@)
}

/// The parameter types and the return type of the method descriptor `signature`, each
/// as `parse_type` reads it.
pub fn parse_parameters_return(signature: &str) -> (r: (Vec<String>, String))
    requires
        parsed_signature(signature@) is Some,
    ensures
        strings_of(r.0@) == parsed_signature(signature@).unwrap().0,
        r.1@ == parsed_signature(signature@).unwrap().1,
{
    let ghost target = parsed_signature(signature@).unwrap();
    let mut ans: Vec<String> = Vec::new();
    let mut chars = signature.chars();
    let ghost sig = chars.remaining();
    chars.next();  //skip starting '('
    proof {
        if sig.len() == 0 {
            assert(chars.remaining() == signature@);
        }
        assert(strings_of(ans@) + target.0 =~= target.0);
    }
    let mut ret = String::new();
    let mut done = false;
    while !done
        invariant
            chars.decrease() is Some,
            !done ==> parsed_params(chars.remaining()) is Some && strings_of(ans@)
                + parsed_params(chars.remaining()).unwrap().0 == target.0 && parsed_params(
                chars.remaining(),
            ).unwrap().1 == target.1,
            done ==> strings_of(ans@) == target.0 && ret@ == target.1,
        decreases (if done { 0int } else { 1int }), chars.decrease()->0,
    {
        let ghost rem = chars.remaining();
        let c = chars.next().unwrap();
        if c == ')' {
            let d = chars.next().unwrap();
            proof {
                assert(chars.remaining() =~= rem.subrange(2, rem.len() as int));
                assert(strings_of(ans@) + Seq::<Seq<char>>::empty() =~= strings_of(ans@));
            }
            ret = parse_type(d, &mut chars);
            done = true;
        } else {
            proof {
                lemma_parsed_type_taken(c, rem.drop_first());
            }
            let t = parse_type(c, &mut chars);
            let ghost before = ans@;
            ans.push(t);
            proof {
                let k = parsed_type(c, rem.drop_first()).unwrap().1;
                assert(chars.remaining() =~= rem.subrange(1 + k, rem.len() as int));
                assert(strings_of(ans@) =~= strings_of(before).push(t@));
                assert(strings_of(ans@) + parsed_params(chars.remaining()).unwrap().0
                    =~= strings_of(before) + parsed_params(rem).unwrap().0);
            }
        }
    }
    (ans, ret)
}

/// How many names stand at the front of `q` that `loaded` holds.
pub open spec fn loaded_prefix(q: Seq<Seq<char>>, loaded: Seq<Seq<char>>) -> int
    decreases q.len(),
{
    if q.len() == 0 || !loaded.contains(q[0]) {
        0
    } else {
        1 + loaded_prefix(q.drop_first(), loaded)
    }
}

pub proof fn lemma_loaded_prefix_bounds(q: Seq<Seq<char>>, loaded: Seq<Seq<char>>)
    ensures
        0 <= loaded_prefix(q, loaded) <= q.len(),
        loaded_prefix(q, loaded) < q.len() ==> !loaded.contains(q[loaded_prefix(q, loaded)]),
        forall|j: int| 0 <= j < loaded_prefix(q, loaded) ==> loaded.contains(q[j]),
    decreases q.len(),
{
    if q.len() > 0 && loaded.contains(q[0]) {
        lemma_loaded_prefix_bounds(q.drop_first(), loaded);
        assert forall|j: int| 0 <= j < loaded_prefix(q, loaded) implies loaded.contains(q[j]) by {
            if j > 0 {
                assert(q[j] == q.drop_first()[j - 1]);
            }
        }
    }
}

/// What the virtual machine keeps while it loads classes: the names of the classes it
/// has loaded, those it is still to load (first in, first out), those it is still to
/// initialize (last in, first out), and whether its initialization loop is running.
pub struct LoaderState {
    classes: Vec<String>,
    to_load: Vec<String>,
    to_init: Vec<String>,
    in_init_loop: bool,
}

impl LoaderState {
    /// The names of the classes loaded.
    pub closed spec fn loaded(&self) -> Seq<Seq<char>> {
        strings_of(self.classes@)
    }

    /// The names of the classes still to load, the next first.
    pub closed spec fn queue(&self) -> Seq<Seq<char>> {
        strings_of(self.to_load@)
    }

    /// The names of the classes still to initialize, the next last.
    pub closed spec fn init_queue(&self) -> Seq<Seq<char>> {
        strings_of(self.to_init@)
    }

    /// Whether the initialization loop is running.
    pub closed spec fn init_loop(&self) -> bool {
        self.in_init_loop
    }

    /// Nothing loaded, nothing to load or initialize, no loop running.
    pub fn new() -> (st: LoaderState)
        ensures
            st.loaded() == Seq::<Seq<char>>::empty(),
            st.queue() == Seq::<Seq<char>>::empty(),
            st.init_queue() == Seq::<Seq<char>>::empty(),
            !st.init_loop(),
    {
        let st = LoaderState {
            classes: Vec::new(),
            to_load: Vec::new(),
            to_init: Vec::new(),
            in_init_loop: false,
        };
        proof {
            assert(st.loaded() =~= Seq::<Seq<char>>::empty());
            assert(st.queue() =~= Seq::<Seq<char>>::empty());
            assert(st.init_queue() =~= Seq::<Seq<char>>::empty());
        }
        st
    }

    /// returns true if the bootstrap classloader has already loaded the class
    pub fn is_class_loaded(&self, name: &str) -> (b: bool)
        ensures
            b == self.loaded().contains(name@),
    {
        let key = name.to_owned();
        let mut i: usize = 0;
        while i < self.classes.len()
            invariant
                i <= self.classes@.len(),
                key@ == name@,
                forall|j: int| 0 <= j < i ==> self.classes@[j]@ != name@,
            decreases self.classes@.len() - i,
        {
            if self.classes[i] == key {
                assert(self.loaded()[i as int] == name@);
                return true;
            }
            i = i + 1;
        }
        assert forall|j: int| 0 <= j < self.loaded().len() implies self.loaded()[j] != name@ by {
            assert(self.loaded()[j] == self.classes@[j]@);
        }
        false
    }

    /// Records that the class `name` is loaded.
    pub fn add_loaded(&mut self, name: String)
        ensures
            final(self).loaded() == if old(self).loaded().contains(name@) {
                old(self).loaded()
            } else {
                old(self).loaded().push(name@)
            },
            final(self).queue() == old(self).queue(),
            final(self).init_queue() == old(self).init_queue(),
            final(self).init_loop() == old(self).init_loop(),
    {
        if !self.is_class_loaded(name.as_str()) {
            let ghost before = self.classes@;
            self.classes.push(name);
            proof {
                assert(strings_of(self.classes@) =~= strings_of(before).push(self.classes@.last()@));
            }
        }
    }

    /// Puts the class `name` at the back of the queue of classes to load, unless it is
    /// loaded.
    pub fn add_to_load(&mut self, name: &str)
        ensures
            final(self).queue() == if old(self).loaded().contains(name@) {
                old(self).queue()
            } else {
                old(self).queue().push(name@)
            },
            final(self).loaded() == old(self).loaded(),
            final(self).init_queue() == old(self).init_queue(),
            final(self).init_loop() == old(self).init_loop(),
    {
        if !self.is_class_loaded(name) {
            let ghost before = self.to_load@;
            self.to_load.push(name.to_owned());
            proof {
                assert(strings_of(self.to_load@) =~= strings_of(before).push(name@));
            }
        }
    }

    pub fn has_to_load(&self) -> (b: bool)
        ensures
            b == (self.queue().len() > 0),
    {
        !self.to_load.is_empty()
    }

    /// Takes the class at the front of the queue of classes to load.
    pub fn get_to_load(&mut self) -> (name: String)
        requires
            old(self).queue().len() > 0,
        ensures
            name@ == old(self).queue()[0],
            final(self).queue() == old(self).queue().drop_first(),
            final(self).loaded() == old(self).loaded(),
            final(self).init_queue() == old(self).init_queue(),
            final(self).init_loop() == old(self).init_loop(),
    {
        let ghost before = self.to_load@;
        let name = self.to_load.remove(0);
        proof {
            assert(strings_of(self.to_load@) =~= strings_of(before).drop_first());
        }
        name
    }

    pub fn has_to_init(&self) -> (b: bool)
        ensures
            b == (self.init_queue().len() > 0),
    {
        !self.to_init.is_empty()
    }

    /// Puts the class `name` on the stack of classes to initialize.
    pub fn add_to_init(&mut self, name: String)
        ensures
            final(self).init_queue() == old(self).init_queue().push(name@),
            final(self).loaded() == old(self).loaded(),
            final(self).queue() == old(self).queue(),
            final(self).init_loop() == old(self).init_loop(),
    {
        let ghost before = self.to_init@;
        self.to_init.push(name);
        proof {
            assert(strings_of(self.to_init@) =~= strings_of(before).push(self.to_init@.last()@));
        }
    }

    /// Takes the class put last on the stack of classes to initialize.
    pub fn get_to_init(&mut self) -> (name: String)
        requires
            old(self).init_queue().len() > 0,
        ensures
            name@ == old(self).init_queue().last(),
            final(self).init_queue() == old(self).init_queue().drop_last(),
            final(self).loaded() == old(self).loaded(),
            final(self).queue() == old(self).queue(),
            final(self).init_loop() == old(self).init_loop(),
    {
        let ghost before = self.to_init@;
        let i = self.to_init.len() - 1;
        let name = self.to_init.remove(i);
        proof {
            assert(strings_of(self.to_init@) =~= strings_of(before).drop_last());
        }
        name
    }

    pub fn is_in_init_loop(&self) -> (b: bool)
        ensures
            b == self.init_loop(),
    {
        self.in_init_loop
    }

    pub fn set_in_init_loop(&mut self, val: bool)
        ensures
            final(self).init_loop() == val,
            final(self).loaded() == old(self).loaded(),
            final(self).queue() == old(self).queue(),
            final(self).init_queue() == old(self).init_queue(),
    {
        self.in_init_loop = val;
    }

    /// The next class to load: names at the front of the queue that are loaded already
    /// are dropped, and the first that is not is taken; `None` once the queue is empty.
    pub fn next_to_load(&mut self) -> (name: Option<String>)
        ensures
            final(self).loaded() == old(self).loaded(),
            final(self).init_queue() == old(self).init_queue(),
            final(self).init_loop() == old(self).init_loop(),
            ({
                let q = old(self).queue();
                let k = loaded_prefix(q, old(self).loaded());
                match name {
                    Some(n) => k < q.len() && n@ == q[k] && final(self).queue() == q.subrange(
                        k + 1,
                        q.len() as int,
                    ),
                    None => k == q.len() && final(self).queue().len() == 0,
                }
            }),
            name matches Some(n) ==> !old(self).loaded().contains(n@),
    {
        let ghost q = self.queue();
        let ghost k = loaded_prefix(q, self.loaded());
        proof {
            lemma_loaded_prefix_bounds(q, self.loaded());
            assert(q.subrange(0, q.len() as int) =~= q);
        }
        let ghost mut i: int = 0;
        while self.has_to_load()
            invariant
                0 <= i <= k <= q.len(),
                self.queue() == q.subrange(i, q.len() as int),
                loaded_prefix(self.queue(), self.loaded()) == k - i,
                k == loaded_prefix(q, self.loaded()),
                k < q.len() ==> !self.loaded().contains(q[k]),
                q == old(self).queue(),
                self.loaded() == old(self).loaded(),
                self.init_queue() == old(self).init_queue(),
                self.init_loop() == old(self).init_loop(),
            decreases q.len() - i,
        {
            let ghost rest = self.queue();
            let n = self.get_to_load();
            if self.is_class_loaded(n.as_str()) {
                proof {
                    assert(self.queue() =~= q.subrange(i + 1, q.len() as int));
                    i = i + 1;
                }
                continue;
            }
            proof {
                assert(rest[0] == q[i]);
                assert(self.queue() =~= q.subrange(k + 1, q.len() as int));
            }
            return Some(n);
        }
        proof {
            assert(loaded_prefix(self.queue(), self.loaded()) == 0);
        }
        None
    }
}

/// The parts of `s` between the characters `c`.
pub open spec fn split_on(s: Seq<char>, c: char) -> Seq<Seq<char>>
    decreases s.len(),
{
    if find_from(s, c, 0) >= s.len() {
        seq![s]
    } else {
        proof {
            crate::names::lemma_find_from_bounds(s, c, 0);
        }
        seq![s.subrange(0, find_from(s, c, 0))] + split_on(
            s.subrange(find_from(s, c, 0) + 1, s.len() as int),
            c,
        )
    }
}

/// The path, part by part, under which the class file of the class `name` lies below a
/// folder of the class path: the parts of `name` between its `/`, the last with
/// `.class` after it.
pub open spec fn class_file_path(name: Seq<char>) -> Seq<Seq<char>> {
    let parts = split_on(name, '/');
    parts.update(parts.len() - 1, parts.last() + ".class"@)
}

/// Characters other than `c` from `i` on to `m` do not move the first `c` found from `i`.
proof fn lemma_find_from_skip(t: Seq<char>, c: char, i: int, m: int)
    requires
        0 <= i <= m <= t.len(),
        forall|j: int| i <= j < m ==> t[j] != c,
    ensures
        find_from(t, c, i) == find_from(t, c, m),
    decreases m - i,
{
    if i < m {
        lemma_find_from_skip(t, c, i + 1, m);
    }
}

/// returns the path to a .class file of a given class, part by part, below a folder of
/// the class path (see `class_file_path`)
pub fn class_file_parts(name: &str) -> (parts: Vec<String>)
    ensures
        strings_of(parts@) == class_file_path(name@),
{
    let s = chars_of(name);
    let mut parts: Vec<String> = Vec::new();
    let mut cur: Vec<char> = Vec::new();
    let mut i: usize = 0;
    proof {
        assert(cur@ + s@.subrange(0, s@.len() as int) =~= s@);
        assert(strings_of(parts@) + split_on(s@, '/') =~= split_on(s@, '/'));
    }
    while i < s.len()
        invariant
            i <= s@.len(),
            s@ == name@,
            forall|j: int| 0 <= j < cur@.len() ==> cur@[j] != '/',
            strings_of(parts@) + split_on(cur@ + s@.subrange(i as int, s@.len() as int), '/')
                == split_on(s@, '/'),
        decreases s@.len() - i,
    {
        let ghost t = cur@ + s@.subrange(i as int, s@.len() as int);
        proof {
            lemma_find_from_skip(t, '/', 0, cur@.len() as int);
        }
        if s[i] == '/' {
            let ghost before = parts@;
            let piece = string_from_chars(cur);
            parts.push(piece);
            cur = Vec::new();
            proof {
                assert(t[piece@.len() as int] == '/');
                assert(strings_of(parts@) =~= strings_of(before).push(piece@));
                assert(t.subrange(piece@.len() as int + 1, t.len() as int) =~= cur@ + s@.subrange(
                    i + 1,
                    s@.len() as int,
                ));
                assert(t.subrange(0, piece@.len() as int) =~= piece@);
                assert(strings_of(parts@) + split_on(cur@ + s@.subrange(i + 1, s@.len() as int), '/')
                    =~= strings_of(before) + split_on(t, '/'));
            }
        } else {
            let ghost old_cur = cur@;
            cur.push(s[i]);
            proof {
                assert(cur@ + s@.subrange(i + 1, s@.len() as int) =~= t);
            }
        }
        i = i + 1;
    }
    let ghost last = cur@;
    proof {
        assert(cur@ + s@.subrange(i as int, s@.len() as int) =~= cur@);
        lemma_find_from_skip(cur@, '/', 0, cur@.len() as int);
    }
    let ghost before = parts@;
    crate::text::push_str(&mut cur, ".class");
    let piece = string_from_chars(cur);
    parts.push(piece);
    proof {
        assert(strings_of(parts@) =~= class_file_path(name@));
    }
    parts
}

/// The names of the classes that the `Class` entries of `cp` name, from the `i`-th entry
/// on, in order.
pub open spec fn referenced_classes(cp: Seq<CPInfo>, i: int) -> Seq<Seq<char>>
    decreases cp.len() - i,
{
    if i < 0 || i >= cp.len() {
        Seq::empty()
    } else {
        match cp[i] {
            CPInfo::Class { name_index } => seq![
                modified_utf8_chars(
                    utf8_reached(cp, name_index as int, true, cp.len()).unwrap(),
                ),
            ] + referenced_classes(cp, i + 1),
            _ => referenced_classes(cp, i + 1),
        }
    }
}

/// The names of `names` that `loaded` does not hold, in order.
pub open spec fn not_loaded(names: Seq<Seq<char>>, loaded: Seq<Seq<char>>) -> Seq<Seq<char>>
    decreases names.len(),
{
    if names.len() == 0 {
        Seq::empty()
    } else if loaded.contains(names[0]) {
        not_loaded(names.drop_first(), loaded)
    } else {
        seq![names[0]] + not_loaded(names.drop_first(), loaded)
    }
}

/// Queues for loading every class that a `Class` entry of the constant pool of `class`
/// names, unless it is loaded.
pub fn initialize_start(state: &mut LoaderState, class: &JavaClass)
    requires
        forall|i: int|
            0 <= i < class.constant_pool@.len() ==> (#[trigger] class.constant_pool@[i] matches CPInfo::Class {
                name_index,
            } ==> cp_name_ok(class.constant_pool@, name_index as int)),
    ensures
        final(state).queue() == old(state).queue() + not_loaded(
            referenced_classes(class.constant_pool@, 0),
            old(state).loaded(),
        ),
        final(state).loaded() == old(state).loaded(),
        final(state).init_queue() == old(state).init_queue(),
        final(state).init_loop() == old(state).init_loop(),
{
    let items = class.constant_pool.items();
    let ghost cp = class.constant_pool@;
    let ghost start = state.queue();
    let mut i: usize = 0;
    proof {
        assert(start + Seq::<Seq<char>>::empty() =~= start);
    }
    while i < items.len()
        invariant
            items@ == cp,
            cp == class.constant_pool@,
            i <= cp.len(),
            forall|j: int|
                0 <= j < cp.len() ==> (#[trigger] cp[j] matches CPInfo::Class { name_index }
                    ==> cp_name_ok(cp, name_index as int)),
            start + not_loaded(referenced_classes(cp, 0), old(state).loaded()) == state.queue()
                + not_loaded(referenced_classes(cp, i as int), old(state).loaded()),
            state.loaded() == old(state).loaded(),
            state.init_queue() == old(state).init_queue(),
            state.init_loop() == old(state).init_loop(),
        decreases cp.len() - i,
    {
        match &items[i] {
            CPInfo::Class { name_index } => {
                let name = get_name_cp(&class.constant_pool, *name_index);
                let ghost before = state.queue();
                state.add_to_load(name.as_str());
                proof {
                    let r = referenced_classes(cp, i + 1);
                    let l = old(state).loaded();
                    assert(referenced_classes(cp, i as int) == seq![name@] + r);
                    assert((seq![name@] + r).drop_first() =~= r);
                    assert((seq![name@] + r)[0] == name@);
                    assert(before + not_loaded(referenced_classes(cp, i as int), l) =~= state.queue()
                        + not_loaded(r, l));
                }
            },
            _ => {},
        }
        i = i + 1;
    }
    proof {
        assert(state.queue() + Seq::<Seq<char>>::empty() =~= state.queue());
    }
}

/// How a class is loaded, as its name tells.
#[derive(Debug, PartialEq)]
pub enum LoadPlan {
    /// One of the primitive types, named by a single letter.
    Primitive,
    /// An array class, whose element type (`element`) is loaded too.
    Array { element: String },
    /// A class read from a class file.
    File,
}

/// The one-letter names of the primitive types.
pub open spec fn primitive_letter(c: char) -> bool {
    c == 'B' || c == 'C' || c == 'D' || c == 'F' || c == 'I' || c == 'J' || c == 'S' || c == 'Z'
}

/// The element type of the array class named `n`: what follows the `[`, unwrapped where it
/// is written `L...;`.
pub open spec fn element_name(n: Seq<char>) -> Seq<char> {
    let sub = n.drop_first();
    if sub[0] == 'L' {
        sub.subrange(1, sub.len() - 1)
    } else {
        sub
    }
}

/// `plan_load` can read the name `n`: it is not empty, and an array name goes on after the
/// `[` with a character of one byte, and, where that is an `L`, with at least one more
/// character, the last of one byte.
pub open spec fn plannable(n: Seq<char>) -> bool {
    &&& n.len() > 0
    &&& n[0] == '[' ==> n.len() >= 2 && (n[1] as u32) < 0x80 && (n[1] == 'L' ==> n.len() >= 3 && (
    n.last() as u32) < 0x80)
}

/// Whether `plan_load` can read the class name `name`.
pub fn can_plan_load(name: &str) -> (b: bool)
    ensures
        b == plannable(name@),
{
    let c = chars_of(name);
    if c.len() == 0 {
        return false;
    }
    if c[0] != '[' {
        return true;
    }
    if c.len() < 2 || (c[1] as u32) >= 0x80 {
        return false;
    }
    if c[1] == 'L' {
        c.len() >= 3 && (c[c.len() - 1] as u32) < 0x80
    } else {
        true
    }
}

/// How the class named `name` is loaded: a primitive type by its single letter, an array
/// class by its `[`, any other class from a class file.
pub fn plan_load(name: &str) -> (p: LoadPlan)
    requires
        plannable(name@),
    ensures
        name@.len() == 1 && primitive_letter(name@[0]) ==> p == LoadPlan::Primitive,
        name@[0] == '[' ==> (p matches LoadPlan::Array { element } && element@ == element_name(
            name@,
        )),
        !(name@.len() == 1 && primitive_letter(name@[0])) && name@[0] != '[' ==> p
            == LoadPlan::File,
{
    let c = chars_of(name);
    let first = c[0];
    if c.len() == 1 && (first == 'B' || first == 'C' || first == 'D' || first == 'F' || first
        == 'I' || first == 'J' || first == 'S' || first == 'Z') {
        LoadPlan::Primitive
    } else if first == '[' {
        let mut element: Vec<char> = Vec::new();
        let (from, to) = if c[1] == 'L' {
            (2, c.len() - 1)
        } else {
            (1, c.len())
        };
        let mut i: usize = from;
        while i < to
            invariant
                from <= i <= to <= c@.len(),
                element@ == c@.subrange(from as int, i as int),
            decreases to - i,
        {
            element.push(c[i]);
            assert(c@.subrange(from as int, i + 1) =~= c@.subrange(from as int, i as int).push(
                c@[i as int],
            ));
            i = i + 1;
        }
        proof {
            let sub = name@.drop_first();
            if sub[0] == 'L' {
                assert(sub.subrange(1, sub.len() - 1) =~= c@.subrange(2, c@.len() - 1));
            } else {
                assert(sub =~= c@.subrange(1, c@.len() as int));
            }
        }
        LoadPlan::Array { element: string_from_chars(element) }
    } else {
        LoadPlan::File
    }
}

/// `refers_to_itself` can read the names of the superclass (unless the class is
/// `java/lang/Object`) and of the interfaces of `jc`.
pub open spec fn self_reference_readable(jc: JavaClass, name: Seq<char>) -> bool {
    let cp = jc.constant_pool@;
    &&& name != "java/lang/Object"@ ==> cp_has(cp, jc.super_class@ as int) && entry_name_ok(
        cp,
        cp_at(cp, jc.super_class@ as int),
    )
    &&& forall|k: int|
        0 <= k < jc.interfaces@.len() ==> cp_has(cp, (#[trigger] jc.interfaces@[k])@ as int)
            && entry_name_ok(cp, cp_at(cp, jc.interfaces@[k]@ as int))
}

/// Whether `refers_to_itself` can read the names of the superclass and interfaces of `jc`,
/// loaded under `name`.
pub fn self_reference_checkable(jc: &JavaClass, name: &str) -> (b: bool)
    ensures
        b == self_reference_readable(*jc, name@),
{
    let cp = &jc.constant_pool;
    if !chars_eq(&chars_of(name), &chars_of("java/lang/Object")) {
        if !entry_name_readable(cp, jc.super_class.as_u16()) {
            return false;
        }
    }
    let mut k: usize = 0;
    while k < jc.interfaces.len()
        invariant
            cp == &jc.constant_pool,
            k <= jc.interfaces@.len(),
            forall|q: int|
                0 <= q < k ==> cp_has(cp@, (#[trigger] jc.interfaces@[q])@ as int)
                    && entry_name_ok(cp@, cp_at(cp@, jc.interfaces@[q]@ as int)),
        decreases jc.interfaces@.len() - k,
    {
        if !entry_name_readable(cp, jc.interfaces[k].as_u16()) {
            return false;
        }
        k = k + 1;
    }
    true
}

/// The name that `get_name` reads for the entry at `i` of `cp`.
pub open spec fn entry_name(cp: Seq<CPInfo>, i: int) -> Seq<char> {
    modified_utf8_chars(entry_name_bytes(cp, cp_at(cp, i)).unwrap())
}

/// The class `jc`, loaded under `name`, names itself as its superclass (a class other than
/// `java/lang/Object`) or as one of its interfaces; such a class is refused.
pub fn refers_to_itself(jc: &JavaClass, name: &str) -> (b: bool)
    requires
        self_reference_readable(*jc, name@),
    ensures
        b == ((name@ != "java/lang/Object"@ && entry_name(jc.constant_pool@, jc.super_class@ as int)
            == name@) || exists|k: int|
            0 <= k < jc.interfaces@.len() && entry_name(
                jc.constant_pool@,
                (#[trigger] jc.interfaces@[k])@ as int,
            ) == name@),
{
    let own = chars_of(name);
    let object = chars_of("java/lang/Object");
    if !chars_eq(&own, &object) {
        let s = get_name(jc, jc.constant_pool.index(jc.super_class));
        if chars_eq(&chars_of(s.as_str()), &own) {
            return true;
        }
    }
    let mut k: usize = 0;
    while k < jc.interfaces.len()
        invariant
            self_reference_readable(*jc, name@),
            own@ == name@,
            k <= jc.interfaces@.len(),
            forall|q: int|
                0 <= q < k ==> entry_name(jc.constant_pool@, (#[trigger] jc.interfaces@[q])@ as int)
                    != name@,
        decreases jc.interfaces@.len() - k,
    {
        let n = get_name(jc, jc.constant_pool.index(jc.interfaces[k]));
        if chars_eq(&chars_of(n.as_str()), &own) {
            return true;
        }
        k = k + 1;
    }
    false
}

} // verus!
