//! Names of classes, fields and methods as the JVM writes them.
use vstd::prelude::*;
use vstd::std_specs::iter::IteratorSpec;
use vstd::utf8::{encode_scalar, encode_utf8};
use crate::text::{chars_of, push_chars, push_str, string_from_chars};
use std::str::Chars;

verus! {

broadcast use {vstd::string::next_postcondition, vstd::string::axiom_spec_iter};

/// The name of a class (or of any type) in its binary form, such as `java/lang/Object`,
/// `[I` or `I`.
#[derive(Clone, Debug, Eq)]
pub struct JVMClassName {
    name: String,
}

impl View for JVMClassName {
    type V = Seq<char>;

    closed spec fn view(&self) -> Seq<char> {
        self.name@
    }
}

impl PartialEq for JVMClassName {
    fn eq(&self, other: &Self) -> (r: bool) {
        self.name == other.name
    }
}

impl vstd::std_specs::cmp::PartialEqSpecImpl for JVMClassName {
    open spec fn obeys_eq_spec() -> bool {
        true
    }

    open spec fn eq_spec(&self, other: &Self) -> bool {
        self@ == other@
    }
}

impl Default for JVMClassName {
    /// The empty name.
    fn default() -> (r: JVMClassName)
        ensures
            r@ == Seq::<char>::empty(),
    {
        JVMClassName { name: String::new() }
    }
}

/// A name as a type descriptor writes it: an array or a one-letter primitive type stays as
/// it is (one letter: one byte of UTF-8), any other name is wrapped in `L` and `;`.
pub open spec fn wrapped(n: Seq<char>) -> Seq<char> {
    if (n.len() > 0 && n[0] == '[') || encode_utf8(n).len() == 1 {
        n
    } else {
        seq!['L'] + n + seq![';']
    }
}

/// A name with each `/` turned into a `.`.
pub open spec fn pretty(n: Seq<char>) -> Seq<char> {
    n.map_values(|c: char| if c == '/' { '.' } else { c })
}

/// The name that `JVMClassName::new` makes of `n`: a name wrapped in `L` and `;` loses
/// its first and last characters.
pub open spec fn unwrapped(n: Seq<char>) -> Seq<char> {
    if n.len() > 0 && n[0] == 'L' {
        n.subrange(1, n.len() - 1)
    } else {
        n
    }
}

/// `JVMClassName::new` can cut `n`: a name that starts with `L` has a last character
/// after it that takes one byte.
pub open spec fn unwrappable(n: Seq<char>) -> bool {
    n.len() > 0 && n[0] == 'L' ==> n.len() >= 2 && (n.last() as u32) < 0x80
}

/// The index of the first `c` in `s` at `i` or after it, or the length of `s` where
/// there is none.
pub open spec fn find_from(s: Seq<char>, c: char, i: int) -> int
    decreases s.len() - i,
{
    if i >= s.len() {
        s.len() as int
    } else if s[i] == c {
        i
    } else {
        find_from(s, c, i + 1)
    }
}

/// Where (from `i` on) the element of an array type written in `s` ends: after a `;`, or
/// after a first character that is neither `[` nor `L`, or at the end of `s`. `started`
/// tells that a character other than `[` has been read.
pub open spec fn array_end(s: Seq<char>, i: int, started: bool) -> int
    decreases s.len() - i,
{
    if i >= s.len() {
        s.len() as int
    } else if s[i] == ';' {
        i + 1
    } else if !started && s[i] != '[' && s[i] != 'L' {
        i + 1
    } else {
        array_end(s, i + 1, started || s[i] != '[')
    }
}

/// How many characters `extract` takes from the front of `s`.
pub open spec fn extract_taken(s: Seq<char>) -> int {
    if s.len() == 0 {
        0
    } else if s[0] == 'L' {
        if find_from(s, ';', 1) < s.len() {
            find_from(s, ';', 1) + 1
        } else {
            s.len() as int
        }
    } else if s[0] == '[' {
        array_end(s, 1, false)
    } else {
        1
    }
}

/// The name that `extract` reads from the front of `s`: what stands between an `L` and
/// the next `;`, an array type up to the end of its element type, or a single character.
pub open spec fn extract_name(s: Seq<char>) -> Option<Seq<char>> {
    if s.len() == 0 {
        None
    } else if s[0] == 'L' {
        Some(s.subrange(1, find_from(s, ';', 1)))
    } else if s[0] == '[' {
        Some(s.subrange(0, array_end(s, 1, false)))
    } else {
        Some(seq![s[0]])
    }
}

/// What `extract` leaves of `s`.
pub open spec fn extract_rest(s: Seq<char>) -> Seq<char> {
    s.subrange(extract_taken(s), s.len() as int)
}

pub proof fn lemma_find_from_bounds(s: Seq<char>, c: char, i: int)
    requires
        0 <= i,
    ensures
        i <= find_from(s, c, i) <= s.len() || (i > s.len() && find_from(s, c, i) == s.len()),
        i <= find_from(s, c, i) < s.len() ==> s[find_from(s, c, i)] == c,
        forall|j: int| i <= j < find_from(s, c, i) ==> s[j] != c,
    decreases s.len() - i,
{
    if i < s.len() && s[i] != c {
        lemma_find_from_bounds(s, c, i + 1);
    }
}

pub proof fn lemma_array_end_bounds(s: Seq<char>, i: int, started: bool)
    requires
        0 <= i <= s.len(),
    ensures
        i <= array_end(s, i, started) <= s.len(),
        i < s.len() ==> i < array_end(s, i, started),
    decreases s.len() - i,
{
    if i < s.len() && s[i] != ';' && !(!started && s[i] != '[' && s[i] != 'L') {
        lemma_array_end_bounds(s, i + 1, started || s[i] != '[');
    }
}

/// `extract` takes at least one character of a non-empty `s` and no more than it holds.
pub proof fn lemma_extract_taken(s: Seq<char>)
    ensures
        0 <= extract_taken(s) <= s.len(),
        s.len() > 0 ==> extract_taken(s) >= 1,
{
    if s.len() > 0 {
        lemma_find_from_bounds(s, ';', 1);
        lemma_array_end_bounds(s, 1, false);
    }
}

impl JVMClassName {
    pub fn get_as_binary(&self) -> (s: String)
        ensures
            s@ == self@,
    {
        self.name.clone()
    }

    pub fn get_as_binary_str(&self) -> (s: &str)
        ensures
            s@ == self@,
    {
        self.name.as_str()
    }

    /// The name as a type descriptor writes it (see `wrapped`).
    pub fn get_as_wrapped_binary(&self) -> (s: String)
        ensures
            s@ == wrapped(self@),
    {
        let tmp = self.get_as_binary_str();
        let c = chars_of(tmp);
        let one_byte = tmp.as_bytes().len() == 1;
        if (c.len() > 0 && c[0] == '[') || one_byte {
            tmp.to_owned()
        } else {
            let mut v: Vec<char> = Vec::new();
            v.push('L');
            push_chars(&mut v, &c);
            v.push(';');
            proof {
                assert(v@ =~= seq!['L'] + self@ + seq![';']);
            }
            string_from_chars(v)
        }
    }

    /// The name with `.` in place of each `/`.
    pub fn get_as_pretty(&self) -> (s: String)
        ensures
            s@ == pretty(self@),
    {
        let c = chars_of(self.name.as_str());
        let mut v: Vec<char> = Vec::new();
        let mut i: usize = 0;
        while i < c.len()
            invariant
                i <= c@.len(),
                c@ == self@,
                v@ == pretty(c@.take(i as int)),
            decreases c@.len() - i,
        {
            let ch = c[i];
            v.push(if ch == '/' { '.' } else { ch });
            assert(pretty(c@.take(i + 1)) =~= pretty(c@.take(i as int)).push(
                if ch == '/' { '.' } else { ch },
            ));
            i = i + 1;
        }
        assert(c@.take(c@.len() as int) =~= c@);
        string_from_chars(v)
    }

    /// The name `name`, unwrapped where it is written as `L...;`.
    pub fn new(name: &str) -> (r: JVMClassName)
        requires
            unwrappable(name@),
        ensures
            r@ == unwrapped(name@),
    {
        let c = chars_of(name);
        if c.len() > 0 && c[0] == 'L' {
            let mut v: Vec<char> = Vec::new();
            let mut i: usize = 1;
            while i < c.len() - 1
                invariant
                    1 <= i <= c@.len() - 1,
                    c@.len() >= 2,
                    v@ == c@.subrange(1, i as int),
                decreases c@.len() - i,
            {
                v.push(c[i]);
                assert(c@.subrange(1, i + 1) =~= c@.subrange(1, i as int).push(c@[i as int]));
                i = i + 1;
            }
            JVMClassName { name: string_from_chars(v) }
        } else {
            JVMClassName { name: name.to_owned() }
        }
    }

    /// Reads a name from the front of `chars` (see `extract_name`), or gives `None` where
    /// nothing is left. Names of classes must stand wrapped in `L` and `;`.
    pub fn extract(chars: &mut Chars) -> (r: Option<JVMClassName>)
        requires
            (*old(chars)).decrease() is Some,
        ensures
            (*final(chars)).decrease() is Some,
            match r {
                Some(n) => extract_name((*old(chars)).remaining()) == Some(n@),
                None => extract_name((*old(chars)).remaining()) is None,
            },
            (*final(chars)).remaining() == extract_rest((*old(chars)).remaining()),
    {
        let ghost s = (*chars).remaining();
        match chars.next() {
            None => {
                assert(s.subrange(0, s.len() as int) =~= s);
                None
            },
            Some(first) => {
                if first == 'L' {
                    let mut ans: Vec<char> = Vec::new();
                    let mut done = false;
                    while !done
                        invariant
                            s.len() > 0,
                            s[0] == 'L',
                            (*chars).decrease() is Some,
                            !done ==> (*chars).remaining() == s.subrange(1 + ans@.len() as int, s.len() as int)
                                && ans@ == s.subrange(1, 1 + ans@.len() as int) && find_from(s, ';', 1) == find_from(s, ';', 1 + ans@.len() as int,
                            ) && 1 + ans@.len() as int <= s.len(),
                            done ==> ans@ == s.subrange(1, find_from(s, ';', 1)) && (*chars).remaining()
                                == extract_rest(s),
                        decreases (if done { 0int } else { 1int }), (*chars).decrease()->0,
                    {
                        let ghost i = 1 + ans@.len() as int;
                        match chars.next() {
                            None => {
                                assert(i == s.len());
                                assert(ans@ =~= s.subrange(1, find_from(s, ';', 1)));
                                assert((*chars).remaining() =~= extract_rest(s));
                                done = true;
                            },
                            Some(c) => {
                                assert(c == s[i]);
                                if c == ';' {
                                    assert(find_from(s, ';', 1) == i);
                                    assert((*chars).remaining() =~= extract_rest(s));
                                    done = true;
                                } else {
                                    ans.push(c);
                                    assert(ans@ =~= s.subrange(1, 1 + ans@.len() as int));
                                    assert((*chars).remaining() =~= s.subrange(
                                        1 + ans@.len() as int,
                                        s.len() as int,
                                    ));
                                }
                            },
                        }
                    }
                    Some(JVMClassName { name: string_from_chars(ans) })
                } else if first == '[' {
                    let mut ans: Vec<char> = Vec::new();
                    ans.push('[');
                    let mut started = false;
                    let mut done = false;
                    while !done
                        invariant
                            s.len() > 0,
                            s[0] == '[',
                            (*chars).decrease() is Some,
                            !done ==> (*chars).remaining() == s.subrange(ans@.len() as int, s.len() as int)
                                && ans@ == s.subrange(0, ans@.len() as int) && array_end(s, 1, false)
                                == array_end(s, ans@.len() as int, started) && 1 <= ans@.len()
                                <= s.len(),
                            done ==> ans@ == s.subrange(0, array_end(s, 1, false))
                                && (*chars).remaining() == extract_rest(s),
                        decreases (if done { 0int } else { 1int }), (*chars).decrease()->0,
                    {
                        let ghost i = ans@.len() as int;
                        match chars.next() {
                            None => {
                                assert(i == s.len());
                                assert(ans@ =~= s.subrange(0, array_end(s, 1, false)));
                                assert((*chars).remaining() =~= extract_rest(s));
                                done = true;
                            },
                            Some(c) => {
                                assert(c == s[i]);
                                ans.push(c);
                                assert(ans@ =~= s.subrange(0, i + 1));
                                if c == ';' {
                                    assert((*chars).remaining() =~= extract_rest(s));
                                    done = true;
                                } else if !started && c != '[' && c != 'L' {
                                    assert((*chars).remaining() =~= extract_rest(s));
                                    done = true;
                                } else {
                                    if c != '[' {
                                        started = true;
                                    }
                                    assert((*chars).remaining() =~= s.subrange(
                                        ans@.len() as int,
                                        s.len() as int,
                                    ));
                                }
                            },
                        }
                    }
                    Some(JVMClassName { name: string_from_chars(ans) })
                } else {
                    let mut ans: Vec<char> = Vec::new();
                    ans.push(first);
                    assert(ans@ =~= seq![s[0]]);
                    Some(JVMClassName { name: string_from_chars(ans) })
                }
            },
        }
    }
}

/// The name of a field.
#[derive(Clone, Debug, Eq)]
pub struct JVMFieldName {
    name: String,
}

impl View for JVMFieldName {
    type V = Seq<char>;

    closed spec fn view(&self) -> Seq<char> {
        self.name@
    }
}

impl PartialEq for JVMFieldName {
    fn eq(&self, other: &Self) -> (r: bool) {
        self.name == other.name
    }
}

impl vstd::std_specs::cmp::PartialEqSpecImpl for JVMFieldName {
    open spec fn obeys_eq_spec() -> bool {
        true
    }

    open spec fn eq_spec(&self, other: &Self) -> bool {
        self@ == other@
    }
}

impl Default for JVMFieldName {
    /// The empty name.
    fn default() -> (r: JVMFieldName)
        ensures
            r@ == Seq::<char>::empty(),
    {
        JVMFieldName { name: String::new() }
    }
}

impl JVMFieldName {
    pub fn get_as_string(&self) -> (s: String)
        ensures
            s@ == self@,
    {
        self.name.clone()
    }

    pub fn get_as_str(&self) -> (s: &str)
        ensures
            s@ == self@,
    {
        self.name.as_str()
    }

    pub fn new(name: &str) -> (r: JVMFieldName)
        ensures
            r@ == name@,
    {
        JVMFieldName { name: name.to_owned() }
    }

    pub fn from_owned(name: String) -> (r: JVMFieldName)
        ensures
            r@ == name@,
    {
        JVMFieldName { name }
    }
}

/// A field: its name and the type it holds.
#[derive(Clone, Debug, Eq)]
pub struct JVMFieldLocator {
    pub name: JVMFieldName,
    pub descriptor: JVMClassName,
}

impl PartialEq for JVMFieldLocator {
    fn eq(&self, other: &Self) -> (r: bool) {
        self.name == other.name && self.descriptor == other.descriptor
    }
}

impl vstd::std_specs::cmp::PartialEqSpecImpl for JVMFieldLocator {
    open spec fn obeys_eq_spec() -> bool {
        true
    }

    open spec fn eq_spec(&self, other: &Self) -> bool {
        self.name@ == other.name@ && self.descriptor@ == other.descriptor@
    }
}

impl Default for JVMFieldLocator {
    /// A field with an empty name and an empty type.
    fn default() -> (r: JVMFieldLocator)
        ensures
            r.name@ == Seq::<char>::empty(),
            r.descriptor@ == Seq::<char>::empty(),
    {
        JVMFieldLocator { name: JVMFieldName::default(), descriptor: JVMClassName::default() }
    }
}

impl JVMFieldLocator {
    /// The field `name` of the type written `descriptor` (unwrapped as
    /// `JVMClassName::new` does).
    pub fn new(name: &str, descriptor: &str) -> (r: JVMFieldLocator)
        requires
            unwrappable(descriptor@),
        ensures
            r.name@ == name@,
            r.descriptor@ == unwrapped(descriptor@),
    {
        JVMFieldLocator { name: JVMFieldName::new(name), descriptor: JVMClassName::new(descriptor) }
    }

    pub fn from_owned(name: String, descriptor: &str) -> (r: JVMFieldLocator)
        requires
            unwrappable(descriptor@),
        ensures
            r.name@ == name@,
            r.descriptor@ == unwrapped(descriptor@),
    {
        JVMFieldLocator {
            name: JVMFieldName::from_owned(name),
            descriptor: JVMClassName::new(descriptor),
        }
    }

    /// The type, a space, and the name.
    pub fn get_as_binary(&self) -> (s: String)
        ensures
            s@ == self.descriptor@ + seq![' '] + self.name@,
    {
        let mut v = chars_of(self.descriptor.get_as_binary_str());
        v.push(' ');
        push_str(&mut v, self.name.get_as_str());
        string_from_chars(v)
    }

    /// The type with `.` for `/`, a space, and the name.
    pub fn get_as_pretty(&self) -> (s: String)
        ensures
            s@ == pretty(self.descriptor@) + seq![' '] + self.name@,
    {
        let p = self.descriptor.get_as_pretty();
        let mut v = chars_of(p.as_str());
        v.push(' ');
        push_str(&mut v, self.name.get_as_str());
        string_from_chars(v)
    }
}

/// The name of a method.
#[derive(Clone, Debug, Eq)]
pub struct JVMMethodName {
    name: String,
}

impl View for JVMMethodName {
    type V = Seq<char>;

    closed spec fn view(&self) -> Seq<char> {
        self.name@
    }
}

impl PartialEq for JVMMethodName {
    fn eq(&self, other: &Self) -> (r: bool) {
        self.name == other.name
    }
}

impl vstd::std_specs::cmp::PartialEqSpecImpl for JVMMethodName {
    open spec fn obeys_eq_spec() -> bool {
        true
    }

    open spec fn eq_spec(&self, other: &Self) -> bool {
        self@ == other@
    }
}

impl Default for JVMMethodName {
    /// The empty name.
    fn default() -> (r: JVMMethodName)
        ensures
            r@ == Seq::<char>::empty(),
    {
        JVMMethodName { name: String::new() }
    }
}

impl JVMMethodName {
    pub fn get_as_string(&self) -> (s: String)
        ensures
            s@ == self@,
    {
        self.name.clone()
    }

    pub fn get_as_str(&self) -> (s: &str)
        ensures
            s@ == self@,
    {
        self.name.as_str()
    }

    pub fn new(name: &str) -> (r: JVMMethodName)
        ensures
            r@ == name@,
    {
        JVMMethodName { name: name.to_owned() }
    }

    pub fn from_owned(name: String) -> (r: JVMMethodName)
        ensures
            r@ == name@,
    {
        JVMMethodName { name }
    }
}

/// The names that `extract` reads from `s` one after another, until nothing is left.
pub open spec fn extract_all(s: Seq<char>) -> Seq<Seq<char>>
    decreases s.len(),
{
    if s.len() == 0 {
        Seq::empty()
    } else {
        proof {
            lemma_extract_taken(s);
        }
        seq![extract_name(s).unwrap()] + extract_all(extract_rest(s))
    }
}

/// `JVMMethodLocator::new` can read the method descriptor `d`: its first character
/// takes one byte, a `)` stands after it, and something stands after the `)`.
pub open spec fn method_descriptor_ok(d: Seq<char>) -> bool {
    &&& d.len() > 0
    &&& (d[0] as u32) < 0x80
    &&& 1 <= find_from(d, ')', 0)
    &&& find_from(d, ')', 0) + 1 < d.len()
}

/// The parameter types of the method descriptor `d`: the names read between its first
/// character and the first `)`.
pub open spec fn descriptor_args(d: Seq<char>) -> Seq<Seq<char>> {
    extract_all(d.subrange(1, find_from(d, ')', 0)))
}

/// The return type of the method descriptor `d`: the name read after the first `)`.
pub open spec fn descriptor_ret(d: Seq<char>) -> Seq<char> {
    extract_name(d.subrange(find_from(d, ')', 0) + 1, d.len() as int)).unwrap()
}

/// The names held by `args`.
pub open spec fn names_of(args: Seq<JVMClassName>) -> Seq<Seq<char>> {
    args.map_values(|a: JVMClassName| a@)
}

/// The names, each as a type descriptor writes it, one after another.
pub open spec fn wrapped_all(args: Seq<Seq<char>>) -> Seq<char>
    decreases args.len(),
{
    if args.len() == 0 {
        Seq::empty()
    } else {
        wrapped_all(args.drop_last()) + wrapped(args.last())
    }
}

/// The names, each as a type descriptor writes it, with `, ` between them.
pub open spec fn wrapped_list(args: Seq<Seq<char>>) -> Seq<char>
    decreases args.len(),
{
    if args.len() == 0 {
        Seq::empty()
    } else if args.len() == 1 {
        wrapped(args[0])
    } else {
        wrapped_list(args.drop_last()) + seq![',', ' '] + wrapped(args.last())
    }
}

/// std's `Vec::into_boxed_slice`, which keeps the items and their order.
#[verifier::external_body]
fn boxed_slice<T>(v: Vec<T>) -> (b: Box<[T]>)
    ensures
        b@ == v@,
{
    v.into_boxed_slice()
}

/// The characters of `v` from `start` to `end`.
fn chars_between(v: &Vec<char>, start: usize, end: usize) -> (w: Vec<char>)
    requires
        start <= end <= v@.len(),
    ensures
        w@ == v@.subrange(start as int, end as int),
{
    let mut w: Vec<char> = Vec::new();
    let mut i: usize = start;
    while i < end
        invariant
            start <= i <= end <= v@.len(),
            w@ == v@.subrange(start as int, i as int),
        decreases end - i,
    {
        w.push(v[i]);
        assert(v@.subrange(start as int, i + 1) =~= v@.subrange(start as int, i as int).push(
            v@[i as int],
        ));
        i = i + 1;
    }
    w
}

/// A method: its name, the types of its parameters and the type it returns.
#[derive(Debug, Eq)]
pub struct JVMMethodLocator {
    pub name: JVMMethodName,
    pub args: Box<[JVMClassName]>,
    pub ret: JVMClassName,
}

impl PartialEq for JVMMethodLocator {
    fn eq(&self, other: &Self) -> (r: bool) {
        if !(self.name == other.name) {
            return false;
        }
        if self.args.len() != other.args.len() {
            assert(names_of(self.args@).len() != names_of(other.args@).len());
            return false;
        }
        let mut i: usize = 0;
        while i < self.args.len()
            invariant
                self.args@.len() == other.args@.len(),
                i <= self.args@.len(),
                forall|j: int| 0 <= j < i ==> self.args@[j]@ == other.args@[j]@,
            decreases self.args@.len() - i,
        {
            if !(self.args[i] == other.args[i]) {
                assert(names_of(self.args@)[i as int] != names_of(other.args@)[i as int]);
                return false;
            }
            i = i + 1;
        }
        assert(names_of(self.args@) =~= names_of(other.args@));
        self.ret == other.ret
    }
}

impl vstd::std_specs::cmp::PartialEqSpecImpl for JVMMethodLocator {
    open spec fn obeys_eq_spec() -> bool {
        true
    }

    open spec fn eq_spec(&self, other: &Self) -> bool {
        &&& self.name@ == other.name@
        &&& names_of(self.args@) == names_of(other.args@)
        &&& self.ret@ == other.ret@
    }
}

impl Clone for JVMMethodLocator {
    fn clone(&self) -> (r: Self)
        ensures
            r.name@ == self.name@,
            names_of(r.args@) == names_of(self.args@),
            r.ret@ == self.ret@,
    {
        let mut args: Vec<JVMClassName> = Vec::new();
        let mut i: usize = 0;
        while i < self.args.len()
            invariant
                i <= self.args@.len(),
                names_of(args@) == names_of(self.args@).take(i as int),
            decreases self.args@.len() - i,
        {
            let ghost before = args@;
            args.push(JVMClassName { name: self.args[i].get_as_binary() });
            assert(names_of(args@) =~= names_of(before).push(self.args@[i as int]@));
            assert(names_of(self.args@).take(i + 1) =~= names_of(self.args@).take(i as int).push(
                self.args@[i as int]@,
            ));
            i = i + 1;
        }
        assert(names_of(self.args@).take(self.args@.len() as int) =~= names_of(self.args@));
        JVMMethodLocator {
            name: JVMMethodName::from_owned(self.name.get_as_string()),
            args: boxed_slice(args),
            ret: JVMClassName { name: self.ret.get_as_binary() },
        }
    }
}

impl Default for JVMMethodLocator {
    /// A method with an empty name, no parameters and an empty return type.
    fn default() -> (r: JVMMethodLocator)
        ensures
            r.name@ == Seq::<char>::empty(),
            r.args@.len() == 0,
            r.ret@ == Seq::<char>::empty(),
    {
        JVMMethodLocator {
            name: JVMMethodName::default(),
            args: boxed_slice(Vec::new()),
            ret: JVMClassName::default(),
        }
    }
}

/// Whether `JVMMethodLocator::new` can read the method descriptor `descriptor`.
pub fn method_descriptor_readable(descriptor: &str) -> (b: bool)
    ensures
        b == method_descriptor_ok(descriptor@),
{
    let d = chars_of(descriptor);
    if d.len() == 0 || (d[0] as u32) >= 0x80 {
        return false;
    }
    let mut p: usize = 0;
    while p < d.len() && d[p] != ')'
        invariant
            p <= d@.len(),
            d@ == descriptor@,
            find_from(d@, ')', 0) == find_from(d@, ')', p as int),
        decreases d@.len() - p,
    {
        p = p + 1;
    }
    1 <= p && p < d.len() - 1
}

impl JVMMethodLocator {
    /// The method `name` with the descriptor `descriptor`, such as `(I[JLjava/lang/Object;)V`.
    pub fn new(name: &str, descriptor: &str) -> (r: JVMMethodLocator)
        requires
            method_descriptor_ok(descriptor@),
        ensures
            r.name@ == name@,
            names_of(r.args@) == descriptor_args(descriptor@),
            r.ret@ == descriptor_ret(descriptor@),
    {
        let d = chars_of(descriptor);
        let mut p: usize = 0;
        while p < d.len() && d[p] != ')'
            invariant
                p <= d@.len(),
                d@ == descriptor@,
                find_from(d@, ')', 0) == find_from(d@, ')', p as int),
            decreases d@.len() - p,
        {
            p = p + 1;
        }
        let inner = string_from_chars(chars_between(&d, 1, p));
        let ghost all = inner@;
        let mut desc_chars = inner.as_str().chars();
        let mut args: Vec<JVMClassName> = Vec::new();
        let mut done = false;
        while !done
            invariant
                desc_chars.decrease() is Some,
                !done ==> names_of(args@) + extract_all(desc_chars.remaining()) == extract_all(
                    all,
                ),
                !done ==> desc_chars.remaining().len() + args@.len() <= all.len(),
                done ==> names_of(args@) == extract_all(all),
                args@.len() <= all.len(),
            decreases all.len() - args@.len() + (if done { 0int } else { 1int }),
        {
            let ghost rem = desc_chars.remaining();
            match JVMClassName::extract(&mut desc_chars) {
                Some(arg) => {
                    proof {
                        lemma_extract_taken(rem);
                    }
                    let ghost before = args@;
                    args.push(arg);
                    assert(names_of(args@) =~= names_of(before).push(arg@));
                    assert(names_of(args@) + extract_all(desc_chars.remaining()) =~= names_of(
                        before,
                    ) + extract_all(rem));
                },
                None => {
                    assert(names_of(args@) + extract_all(rem) =~= names_of(args@));
                    done = true;
                },
            }
        }
        let after = string_from_chars(chars_between(&d, p + 1, d.len()));
        let mut ret_chars = after.as_str().chars();
        let ret = JVMClassName::extract(&mut ret_chars).unwrap();
        JVMMethodLocator { name: JVMMethodName::new(name), args: boxed_slice(args), ret }
    }

    /// The name, then the parameter types between `(` and `)`, then the return type, each
    /// type as a descriptor writes it.
    pub fn get_as_binary(&self) -> (s: String)
        ensures
            s@ == self.name@ + seq!['('] + wrapped_all(names_of(self.args@)) + seq![')'] + wrapped(
                self.ret@,
            ),
    {
        let mut v = chars_of(self.name.get_as_str());
        v.push('(');
        let ghost start = v@;
        let mut i: usize = 0;
        while i < self.args.len()
            invariant
                i <= self.args@.len(),
                v@ == start + wrapped_all(names_of(self.args@).take(i as int)),
            decreases self.args@.len() - i,
        {
            let w = self.args[i].get_as_wrapped_binary();
            push_str(&mut v, w.as_str());
            assert(names_of(self.args@).take(i + 1).drop_last() =~= names_of(self.args@).take(
                i as int,
            ));
            i = i + 1;
        }
        assert(names_of(self.args@).take(self.args@.len() as int) =~= names_of(self.args@));
        v.push(')');
        let r = self.ret.get_as_wrapped_binary();
        push_str(&mut v, r.as_str());
        string_from_chars(v)
    }

    /// The return type with `.` for `/`, a space, the name, then the parameter types
    /// between `(` and `)`, as descriptors write them, with `, ` between them.
    pub fn get_as_pretty(&self) -> (s: String)
        ensures
            s@ == pretty(self.ret@) + seq![' '] + self.name@ + seq!['('] + wrapped_list(
                names_of(self.args@),
            ) + seq![')'],
    {
        let rp = self.ret.get_as_pretty();
        let mut v = chars_of(rp.as_str());
        v.push(' ');
        push_str(&mut v, self.name.get_as_str());
        v.push('(');
        let ghost start = v@;
        let mut i: usize = 0;
        while i < self.args.len()
            invariant
                i <= self.args@.len(),
                v@ == start + wrapped_list(names_of(self.args@).take(i as int)),
            decreases self.args@.len() - i,
        {
            if i > 0 {
                v.push(',');
                v.push(' ');
            }
            let w = self.args[i].get_as_wrapped_binary();
            push_str(&mut v, w.as_str());
            assert(names_of(self.args@).take(i + 1).drop_last() =~= names_of(self.args@).take(
                i as int,
            ));
            i = i + 1;
        }
        assert(names_of(self.args@).take(self.args@.len() as int) =~= names_of(self.args@));
        v.push(')');
        string_from_chars(v)
    }
}

/// Each character takes at least one byte of UTF-8.
pub proof fn lemma_encode_utf8_len(n: Seq<char>)
    ensures
        encode_utf8(n).len() >= n.len(),
    decreases n.len(),
{
    if n.len() > 0 {
        lemma_encode_utf8_len(n.drop_first());
    }
}

/// A name written as a type descriptor (see `wrapped`) is read back by
/// `JVMClassName::new` as the same name; the one name `L` cannot be read back, as
/// `new` cannot cut it.
pub proof fn law_new_reads_wrapped(n: Seq<char>)
    requires
        n != seq!['L'],
    ensures
        unwrappable(wrapped(n)),
        unwrapped(wrapped(n)) == n,
{
    lemma_encode_utf8_len(n);
    if (n.len() > 0 && n[0] == '[') || encode_utf8(n).len() == 1 {
        if n.len() > 0 && n[0] == 'L' {
            if n.len() >= 2 {
                lemma_encode_utf8_len(n.drop_first());
                assert(encode_utf8(n) == encode_scalar(n[0] as u32) + encode_utf8(n.drop_first()));
            }
            assert(n =~= seq!['L']);
        }
    } else {
        let w = seq!['L'] + n + seq![';'];
        assert(w.subrange(1, w.len() - 1) =~= n);
    }
}

/// One of the letters that stand for a primitive type in a descriptor (`V` is not one).
pub open spec fn base_letter(c: char) -> bool {
    c == 'B' || c == 'C' || c == 'D' || c == 'F' || c == 'I' || c == 'J' || c == 'S' || c == 'Z'
}

/// `n` can stand between `L` and `;` in a descriptor: it holds neither `;` nor `)`.
pub open spec fn plain_class_name(n: Seq<char>) -> bool {
    forall|i: int| 0 <= i < n.len() ==> #[trigger] n[i] != ';' && n[i] != ')'
}

/// `e` is what follows the `[` of an array type in a descriptor: a primitive letter, another
/// array type, or `L`, a class name and `;`.
pub open spec fn array_element_ok(e: Seq<char>) -> bool
    decreases e.len(),
{
    if e.len() == 0 {
        false
    } else if e[0] == '[' {
        array_element_ok(e.drop_first())
    } else if e[0] == 'L' {
        e.len() >= 2 && e.last() == ';' && plain_class_name(e.subrange(1, e.len() - 1))
    } else {
        e.len() == 1 && base_letter(e[0])
    }
}

/// `t` is a type name that a descriptor writes (see `wrapped`) and reads back: a primitive
/// letter, an array type, or a class name that takes more than one byte of UTF-8 and does
/// not start with `[`.
pub open spec fn field_type_ok(t: Seq<char>) -> bool {
    ||| (t.len() == 1 && base_letter(t[0]))
    ||| (t.len() > 0 && t[0] == '[' && array_element_ok(t.drop_first()))
    ||| (plain_class_name(t) && !(t.len() > 0 && t[0] == '[') && encode_utf8(t).len() != 1)
}

/// The method descriptor of the parameter types `args` and the return type `ret`.
pub open spec fn method_descriptor(args: Seq<Seq<char>>, ret: Seq<char>) -> Seq<char> {
    seq!['('] + wrapped_all(args) + seq![')'] + wrapped(ret)
}

proof fn lemma_find_at(s: Seq<char>, c: char, i: int, k: int)
    requires
        0 <= i <= k < s.len(),
        s[k] == c,
        forall|m: int| i <= m < k ==> s[m] != c,
    ensures
        find_from(s, c, i) == k,
    decreases k - i,
{
    if i < k {
        lemma_find_at(s, c, i + 1, k);
    }
}

proof fn lemma_scan_to_semicolon(s: Seq<char>, j: int, k: int)
    requires
        0 <= j <= k < s.len(),
        s[k] == ';',
        forall|m: int| j <= m < k ==> s[m] != ';',
    ensures
        array_end(s, j, true) == k + 1,
    decreases k - j,
{
    if j < k {
        lemma_scan_to_semicolon(s, j + 1, k);
    }
}

proof fn lemma_array_end_element(s: Seq<char>, i: int, e: Seq<char>)
    requires
        0 <= i,
        i + e.len() <= s.len(),
        s.subrange(i, i + e.len()) == e,
        array_element_ok(e),
    ensures
        array_end(s, i, false) == i + e.len(),
    decreases e.len(),
{
    assert(s[i] == e[0]);
    if e[0] == '[' {
        assert(s.subrange(i + 1, i + 1 + e.drop_first().len()) =~= e.drop_first());
        lemma_array_end_element(s, i + 1, e.drop_first());
    } else if e[0] == 'L' {
        let k = i + e.len() - 1;
        assert(s[k] == e[e.len() - 1]);
        assert forall|m: int| i + 1 <= m < k implies s[m] != ';' by {
            assert(s[m] == e[m - i]);
            assert(e.subrange(1, e.len() - 1)[m - i - 1] == e[m - i]);
        }
        lemma_scan_to_semicolon(s, i + 1, k);
    }
}

proof fn lemma_element_no_paren(e: Seq<char>)
    requires
        array_element_ok(e),
    ensures
        forall|m: int| 0 <= m < e.len() ==> e[m] != ')',
    decreases e.len(),
{
    if e[0] == '[' {
        lemma_element_no_paren(e.drop_first());
        assert forall|m: int| 0 <= m < e.len() implies e[m] != ')' by {
            if m > 0 {
                assert(e[m] == e.drop_first()[m - 1]);
            }
        }
    } else if e[0] == 'L' {
        assert forall|m: int| 0 <= m < e.len() implies e[m] != ')' by {
            if 0 < m < e.len() - 1 {
                assert(e.subrange(1, e.len() - 1)[m - 1] == e[m]);
            }
        }
    }
}

/// A one-letter name of one byte.
proof fn lemma_letter_one_byte(t: Seq<char>)
    requires
        t.len() == 1,
        base_letter(t[0]) || t[0] == 'V',
    ensures
        encode_utf8(t).len() == 1,
{
    assert(t.drop_first() =~= Seq::<char>::empty());
    assert(encode_utf8(t) == encode_scalar(t[0] as u32) + encode_utf8(t.drop_first()));
}

/// A type name written as a descriptor does it is read back by `extract`, which takes
/// exactly the written characters.
proof fn lemma_extract_wrapped(t: Seq<char>, rest: Seq<char>)
    requires
        field_type_ok(t) || t == seq!['V'],
    ensures
        wrapped(t).len() >= 1,
        extract_name(wrapped(t) + rest) == Some(t),
        extract_taken(wrapped(t) + rest) == wrapped(t).len(),
        extract_rest(wrapped(t) + rest) == rest,
        forall|m: int| 0 <= m < wrapped(t).len() ==> wrapped(t)[m] != ')',
{
    let s = wrapped(t) + rest;
    if t.len() == 1 && (base_letter(t[0]) || t[0] == 'V') {
        lemma_letter_one_byte(t);
        assert(wrapped(t) == t);
        assert(s[0] == t[0]);
        assert(seq![s[0]] =~= t);
    } else if t.len() > 0 && t[0] == '[' && array_element_ok(t.drop_first()) {
        assert(wrapped(t) == t);
        assert(s.subrange(1, 1 + t.drop_first().len() as int) =~= t.drop_first());
        lemma_array_end_element(s, 1, t.drop_first());
        assert(s.subrange(0, t.len() as int) =~= t);
        lemma_element_no_paren(t.drop_first());
        assert forall|m: int| 0 <= m < t.len() implies t[m] != ')' by {
            if m > 0 {
                assert(t[m] == t.drop_first()[m - 1]);
            }
        }
    } else {
        let w = seq!['L'] + t + seq![';'];
        assert(wrapped(t) == w);
        assert forall|m: int| 1 <= m < 1 + t.len() as int implies s[m] != ';' by {
            assert(s[m] == t[m - 1]);
        }
        assert(s[1 + t.len() as int] == ';');
        lemma_find_at(s, ';', 1, 1 + t.len() as int);
        assert(s.subrange(1, 1 + t.len() as int) =~= t);
        assert forall|m: int| 0 <= m < w.len() implies w[m] != ')' by {
            if 1 <= m < 1 + t.len() as int {
                assert(w[m] == t[m - 1]);
            }
        }
    }
    assert(s.subrange(wrapped(t).len() as int, s.len() as int) =~= rest);
}

proof fn lemma_wrapped_all_front(args: Seq<Seq<char>>)
    requires
        args.len() > 0,
    ensures
        wrapped_all(args) == wrapped(args[0]) + wrapped_all(args.drop_first()),
    decreases args.len(),
{
    if args.len() > 1 {
        lemma_wrapped_all_front(args.drop_last());
        assert(args.drop_last().drop_first() =~= args.drop_first().drop_last());
        assert(args.drop_first().last() == args.last());
        assert(wrapped_all(args.drop_first()) == wrapped_all(args.drop_first().drop_last())
            + wrapped(args.drop_first().last()));
    } else {
        assert(args.drop_first() =~= Seq::<Seq<char>>::empty());
        assert(args.drop_last() =~= Seq::<Seq<char>>::empty());
        assert(wrapped_all(args.drop_last()) =~= Seq::<char>::empty());
        assert(wrapped_all(args.drop_first()) =~= Seq::<char>::empty());
        assert(wrapped_all(args) =~= wrapped(args[0]));
        assert(wrapped(args[0]) + Seq::<char>::empty() =~= wrapped(args[0]));
    }
}

proof fn lemma_extract_all_wrapped(args: Seq<Seq<char>>)
    requires
        forall|i: int| 0 <= i < args.len() ==> field_type_ok(#[trigger] args[i]),
    ensures
        extract_all(wrapped_all(args)) == args,
        forall|m: int| 0 <= m < wrapped_all(args).len() ==> wrapped_all(args)[m] != ')',
    decreases args.len(),
{
    if args.len() == 0 {
        assert(wrapped_all(args) =~= Seq::<char>::empty());
        assert(extract_all(Seq::<char>::empty()) =~= args);
    } else {
        let tail = args.drop_first();
        assert(field_type_ok(args[0]));
        assert forall|i: int| 0 <= i < tail.len() implies field_type_ok(#[trigger] tail[i]) by {
            assert(tail[i] == args[i + 1]);
        }
        lemma_wrapped_all_front(args);
        lemma_extract_all_wrapped(tail);
        let w = wrapped_all(args);
        lemma_extract_wrapped(args[0], wrapped_all(tail));
        assert(w.len() > 0);
        assert(extract_all(w) == seq![extract_name(w).unwrap()] + extract_all(extract_rest(w)));
        assert(extract_all(w) =~= args);
        assert forall|m: int| 0 <= m < w.len() implies w[m] != ')' by {
            let a = wrapped(args[0]);
            if m >= a.len() {
                assert(w[m] == wrapped_all(tail)[m - a.len()]);
            } else {
                assert(w[m] == a[m]);
            }
        }
    }
}

/// A method descriptor written from parameter and return types is read back as those
/// types, so that `JVMMethodLocator::new(n, d).get_as_binary()` gives `n` followed by `d`:
/// the parameter types written one after another give back the text between the
/// parentheses, and the return type (or `V`) the text after them.
pub proof fn law_method_descriptor_round_trip(args: Seq<Seq<char>>, ret: Seq<char>)
    requires
        forall|i: int| 0 <= i < args.len() ==> field_type_ok(#[trigger] args[i]),
        field_type_ok(ret) || ret == seq!['V'],
    ensures
        method_descriptor_ok(method_descriptor(args, ret)),
        descriptor_args(method_descriptor(args, ret)) == args,
        descriptor_ret(method_descriptor(args, ret)) == ret,
        seq!['('] + wrapped_all(descriptor_args(method_descriptor(args, ret))) + seq![')']
            + wrapped(descriptor_ret(method_descriptor(args, ret))) == method_descriptor(args, ret),
{
    let w = wrapped_all(args);
    let r = wrapped(ret);
    let d = method_descriptor(args, ret);
    lemma_extract_all_wrapped(args);
    lemma_extract_wrapped(ret, Seq::<char>::empty());
    assert(d[1 + w.len() as int] == ')');
    assert forall|m: int| 0 <= m < 1 + w.len() as int implies d[m] != ')' by {
        if m >= 1 {
            assert(d[m] == w[m - 1]);
        }
    }
    lemma_find_at(d, ')', 0, 1 + w.len() as int);
    assert(d.subrange(1, 1 + w.len() as int) =~= w);
    assert(d.subrange(2 + w.len() as int, d.len() as int) =~= r + Seq::<char>::empty());
    assert(('(' as u32) < 0x80);
}

} // verus!
