//! Building a constant pool entry by entry, handing out the index of an equal entry
//! where there already is one.
use vstd::prelude::*;
use vstd::utf8::encode_utf8;
use crate::builders::key_table::KeyTable;
use crate::cp::{CPIndex, ConstantPool};
use crate::cp_info::{is_wide_entry, CPInfo};
use crate::text::{chars_of, push_str};

verus! {

/// The tables in which a `CPBuilder` remembers the entries it has made, by their text.
pub enum Table {
    Strings,
    Classes,
    Utf8s,
    NameTypes,
    Fieldrefs,
    Methodrefs,
    InterfaceMethodrefs,
}

pub struct CPBuilder {
    items: Vec<CPInfo>,
    string_table: KeyTable,
    class_table: KeyTable,
    utf8_table: KeyTable,
    name_type_table: KeyTable,
    fieldref_table: KeyTable,
    methodref_table: KeyTable,
    imethodref_table: KeyTable,
}

/// The key under which a name and a type are kept: `name%type`.
pub open spec fn name_type_key(name: Seq<char>, type_: Seq<char>) -> Seq<char> {
    name + seq!['%'] + type_
}

/// The key under which a member reference is kept: `class%name%type`.
pub open spec fn member_key(c_name: Seq<char>, name: Seq<char>, type_: Seq<char>) -> Seq<char> {
    c_name + seq!['%'] + name + seq!['%'] + type_
}

/// `info` is the `Utf8` entry made for the text `s`: its UTF-8 bytes, and their number
/// cut to 16 bits.
pub open spec fn is_utf8_of(info: CPInfo, s: Seq<char>) -> bool {
    match info {
        CPInfo::Utf8 { length, bytes } => bytes@ == encode_utf8(s) && length == encode_utf8(
            s,
        ).len() as u16,
        _ => false,
    }
}

/// The entry that a member reference of the kind kept in `t` is made of.
pub open spec fn member_entry(t: Table, class_index: u16, name_and_type_index: u16) -> CPInfo {
    match t {
        Table::Fieldrefs => CPInfo::Fieldref { class_index, name_and_type_index },
        Table::Methodrefs => CPInfo::Methodref { class_index, name_and_type_index },
        _ => CPInfo::InterfaceMethodref { class_index, name_and_type_index },
    }
}

/// `info` is an entry of the kind that the table `t` keeps the indices of.
pub open spec fn kept_kind(t: Table, info: CPInfo) -> bool {
    match t {
        Table::NameTypes => info is NameAndType,
        Table::Fieldrefs => info is Fieldref,
        Table::Methodrefs => info is Methodref,
        Table::InterfaceMethodrefs => info is InterfaceMethodref,
        _ => true,
    }
}

impl CPBuilder {
    /// The entries made so far, in order; the first has index 1.
    pub closed spec fn items(&self) -> Seq<CPInfo> {
        self.items@
    }

    /// The table `t`, from keys to indices.
    pub closed spec fn table(&self, t: Table) -> Map<Seq<char>, u16> {
        match t {
            Table::Strings => self.string_table@,
            Table::Classes => self.class_table@,
            Table::Utf8s => self.utf8_table@,
            Table::NameTypes => self.name_type_table@,
            Table::Fieldrefs => self.fieldref_table@,
            Table::Methodrefs => self.methodref_table@,
            Table::InterfaceMethodrefs => self.imethodref_table@,
        }
    }

    /// There is room for `k` more entries with indices that fit in 16 bits.
    pub open spec fn has_room(&self, k: int) -> bool {
        self.items().len() + k <= 65535
    }

    /// There are at most 65535 entries, each `Long` and `Double` is followed by the filler of
    /// its second slot, each index held in an entry names an earlier entry, each index in a
    /// table names an entry, and the entry is the one kept there: the
    /// `Utf8` entry of the key, a `String` or `Class` entry that points at the `Utf8`
    /// entry of the key, or an entry of the table's kind.
    pub open spec fn wf(&self) -> bool {
        &&& self.items().len() <= 65535
        &&& wide_layout(self.items())
        &&& links_back(self.items())
        &&& forall|t: Table, k: Seq<char>| #[trigger]
            self.table(t).contains_key(k) ==> 1 <= self.table(t)[k] <= self.items().len()
                && kept_kind(t, self.items()[self.table(t)[k] - 1])
        &&& forall|k: Seq<char>| #[trigger]
            self.table(Table::Utf8s).contains_key(k) ==> is_utf8_of(
                self.items()[self.table(Table::Utf8s)[k] - 1],
                k,
            )
        &&& forall|k: Seq<char>| #[trigger]
            self.table(Table::Strings).contains_key(k) ==> self.table(Table::Utf8s).contains_key(k)
                && self.items()[self.table(Table::Strings)[k] - 1] == CPInfo::String {
                string_index: self.table(Table::Utf8s)[k],
            }
        &&& forall|k: Seq<char>| #[trigger]
            self.table(Table::Classes).contains_key(k) ==> self.table(Table::Utf8s).contains_key(k)
                && self.items()[self.table(Table::Classes)[k] - 1] == CPInfo::Class {
                name_index: self.table(Table::Utf8s)[k],
            }
    }
}

/// How many entries `add_utf8` adds for the text `s`.
pub open spec fn utf8_need(a: CPBuilder, s: Seq<char>) -> int {
    if a.table(Table::Utf8s).contains_key(s) {
        0
    } else {
        1
    }
}

/// How many entries `add_string` (`t` is `Strings`) or `add_class` (`t` is `Classes`) adds
/// for the text `s`.
pub open spec fn text_ref_need(a: CPBuilder, t: Table, s: Seq<char>) -> int {
    if a.table(t).contains_key(s) {
        0
    } else {
        utf8_need(a, s) + 1
    }
}

/// How many entries `add_name_type` adds for `name` and `type_`.
pub open spec fn name_type_need(a: CPBuilder, name: Seq<char>, type_: Seq<char>) -> int {
    if a.table(Table::NameTypes).contains_key(name_type_key(name, type_)) {
        0
    } else {
        utf8_need(a, name) + (if type_ == name {
            0
        } else {
            utf8_need(a, type_)
        }) + 1
    }
}

/// How many entries a member reference of the kind kept in `t` adds: those of its name and
/// type, those of its class (whose name may have been added with the name and type), and
/// itself.
pub open spec fn member_need(
    a: CPBuilder,
    t: Table,
    c_name: Seq<char>,
    name: Seq<char>,
    type_: Seq<char>,
) -> int {
    if a.table(t).contains_key(member_key(c_name, name, type_)) {
        0
    } else {
        let fresh_nt = !a.table(Table::NameTypes).contains_key(name_type_key(name, type_));
        let class_need: int = if a.table(Table::Classes).contains_key(c_name) {
            0
        } else if a.table(Table::Utf8s).contains_key(c_name) || (fresh_nt && (c_name == name
            || c_name == type_)) {
            1
        } else {
            2
        };
        name_type_need(a, name, type_) + class_need + 1
    }
}

/// The indices of other entries that the entry `e` holds.
pub open spec fn refs_of(e: CPInfo) -> Seq<u16> {
    match e {
        CPInfo::Class { name_index } => seq![name_index],
        CPInfo::String { string_index } => seq![string_index],
        CPInfo::Fieldref { class_index, name_and_type_index } => seq![class_index, name_and_type_index],
        CPInfo::Methodref { class_index, name_and_type_index } => seq![class_index, name_and_type_index],
        CPInfo::InterfaceMethodref { class_index, name_and_type_index } => seq![
            class_index,
            name_and_type_index,
        ],
        CPInfo::NameAndType { name_index, descriptor_index } => seq![name_index, descriptor_index],
        CPInfo::MethodHandle { reference_index, .. } => seq![reference_index],
        CPInfo::MethodType { descriptor_index } => seq![descriptor_index],
        CPInfo::InvokeDynamic { name_and_type_index, .. } => seq![name_and_type_index],
        _ => Seq::empty(),
    }
}

/// Each index that an entry of `items` holds names an entry before it (indices count from 1).
pub open spec fn links_back(items: Seq<CPInfo>) -> bool {
    forall|i: int, k: int|
        0 <= i < items.len() && 0 <= k < refs_of(items[i]).len() ==> 1 <= #[trigger] refs_of(
            items[i],
        )[k] <= i
}

/// Each `Long` or `Double` of `items` is followed by the filler of its second slot, and
/// each filler follows one of them.
pub open spec fn wide_layout(items: Seq<CPInfo>) -> bool {
    forall|i: int|
        0 <= i < items.len() ==> {
            &&& (is_wide_entry(#[trigger] items[i]) ==> i + 1 < items.len() && items[i + 1] is LongDoubleDummy)
            &&& (items[i] is LongDoubleDummy ==> i > 0 && is_wide_entry(items[i - 1]))
        }
}

/// Appending an entry of one slot whose indices name entries already there keeps the
/// layout and the links.
proof fn lemma_layout_push(items: Seq<CPInfo>, e: CPInfo)
    requires
        wide_layout(items),
        links_back(items),
        !is_wide_entry(e),
        !(e is LongDoubleDummy),
        forall|k: int| 0 <= k < refs_of(e).len() ==> 1 <= #[trigger] refs_of(e)[k] <= items.len(),
    ensures
        wide_layout(items.push(e)),
        links_back(items.push(e)),
{
    let t = items.push(e);
    assert forall|i: int| 0 <= i < t.len() implies {
        &&& (is_wide_entry(#[trigger] t[i]) ==> i + 1 < t.len() && t[i + 1] is LongDoubleDummy)
        &&& (t[i] is LongDoubleDummy ==> i > 0 && is_wide_entry(t[i - 1]))
    } by {
        if i < items.len() {
            assert(t[i] == items[i]);
            if i > 0 {
                assert(t[i - 1] == items[i - 1]);
            }
            if i + 1 < items.len() {
                assert(t[i + 1] == items[i + 1]);
            }
        }
    }
    assert forall|i: int, k: int|
        0 <= i < t.len() && 0 <= k < refs_of(t[i]).len() implies 1 <= #[trigger] refs_of(t[i])[k]
        <= i by {
        if i < items.len() {
            assert(t[i] == items[i]);
        }
    }
}

/// Appending a `Long` or `Double` and its filler keeps the layout and the links.
proof fn lemma_layout_push_wide(items: Seq<CPInfo>, e: CPInfo)
    requires
        wide_layout(items),
        links_back(items),
        is_wide_entry(e),
    ensures
        wide_layout(items.push(e).push(CPInfo::LongDoubleDummy)),
        links_back(items.push(e).push(CPInfo::LongDoubleDummy)),
{
    let t = items.push(e).push(CPInfo::LongDoubleDummy);
    assert forall|i: int| 0 <= i < t.len() implies {
        &&& (is_wide_entry(#[trigger] t[i]) ==> i + 1 < t.len() && t[i + 1] is LongDoubleDummy)
        &&& (t[i] is LongDoubleDummy ==> i > 0 && is_wide_entry(t[i - 1]))
    } by {
        if i < items.len() {
            assert(t[i] == items[i]);
            if i > 0 {
                assert(t[i - 1] == items[i - 1]);
            }
            if i + 1 < items.len() {
                assert(t[i + 1] == items[i + 1]);
            }
        }
    }
    assert forall|i: int, k: int|
        0 <= i < t.len() && 0 <= k < refs_of(t[i]).len() implies 1 <= #[trigger] refs_of(t[i])[k]
        <= i by {
        if i < items.len() {
            assert(t[i] == items[i]);
        }
    }
}

/// One call of an `add_*` method of `CPBuilder`, with the arguments that the entry it
/// names is known by.
pub enum AddCall {
    Integer(u32),
    Long(u64),
    Float(u32),
    Double(u64),
    Utf8(Seq<char>),
    String(Seq<char>),
    Class(Seq<char>),
    NameType,
    Member(Table),
}

/// The index `r` names, among `items`, the entry that `call` gives: a number entry of its
/// value, the `Utf8` entry of its text, a `String` or `Class` entry that points back at the
/// `Utf8` entry of its text, or an entry of the kind made for a name and type or a member.
pub open spec fn entry_for(items: Seq<CPInfo>, call: AddCall, r: u16) -> bool {
    &&& 1 <= r <= items.len()
    &&& match call {
        AddCall::Integer(v) => items[r - 1] == CPInfo::Integer { bytes: v },
        AddCall::Long(v) => items[r - 1] == CPInfo::Long { bytes: v },
        AddCall::Float(v) => items[r - 1] == CPInfo::Float { bytes: v },
        AddCall::Double(v) => items[r - 1] == CPInfo::Double { bytes: v },
        AddCall::Utf8(t) => is_utf8_of(items[r - 1], t),
        AddCall::String(t) => items[r - 1] matches CPInfo::String { string_index: u } && 1 <= u
            < r && is_utf8_of(items[u - 1], t),
        AddCall::Class(t) => items[r - 1] matches CPInfo::Class { name_index: u } && 1 <= u < r
            && is_utf8_of(items[u - 1], t),
        AddCall::NameType => items[r - 1] is NameAndType,
        AddCall::Member(t) => kept_kind(t, items[r - 1]),
    }
}

/// `b` keeps every table of `a`.
pub open spec fn tables_kept(a: CPBuilder, b: CPBuilder) -> bool {
    forall|t: Table| #[trigger] b.table(t) == a.table(t)
}

/// `b` keeps every table of `a` but `t`.
pub open spec fn others_kept(a: CPBuilder, b: CPBuilder, t: Table) -> bool {
    forall|u: Table| u != t ==> #[trigger] b.table(u) == a.table(u)
}

/// `b` holds what `a` holds.
pub open spec fn same(a: CPBuilder, b: CPBuilder) -> bool {
    b.items() == a.items() && tables_kept(a, b)
}

/// `b` holds the entries of `a` first, in their places, and every key of a table keeps
/// its index.
pub open spec fn grows(a: CPBuilder, b: CPBuilder) -> bool {
    &&& a.items().len() <= b.items().len()
    &&& b.items().subrange(0, a.items().len() as int) == a.items()
    &&& forall|t: Table, k: Seq<char>|
        #[trigger] a.table(t).contains_key(k) ==> b.table(t).contains_key(k) && b.table(t)[k]
            == a.table(t)[k]
}

/// Some entry of `items` equals `e`.
pub open spec fn holds(items: Seq<CPInfo>, e: CPInfo) -> bool {
    exists|i: int| 0 <= i < items.len() && items[i] == e
}

/// `r` is the index (from 1) of the first entry of `items` that equals `e`.
pub open spec fn first_at(items: Seq<CPInfo>, e: CPInfo, r: int) -> bool {
    &&& 1 <= r <= items.len()
    &&& items[r - 1] == e
    &&& forall|j: int| 0 <= j < r - 1 ==> items[j] != e
}

/// What adding the one-slot entry `e` does: where an equal entry is there, its index
/// (the first such) comes back and nothing changes; else `e` is appended and its index
/// comes back.
pub open spec fn single_added(a: CPBuilder, b: CPBuilder, e: CPInfo, r: u16) -> bool {
    if holds(a.items(), e) {
        same(a, b) && first_at(a.items(), e, r as int)
    } else {
        &&& b.items() == a.items().push(e)
        &&& tables_kept(a, b)
        &&& r == a.items().len() + 1
    }
}

/// What adding the two-slot entry `e` (a `Long` or a `Double`) does: as for one slot,
/// but a fresh entry is followed by the filler of its second slot.
pub open spec fn wide_added(a: CPBuilder, b: CPBuilder, e: CPInfo, r: u16) -> bool {
    if holds(a.items(), e) {
        same(a, b) && first_at(a.items(), e, r as int)
    } else {
        &&& b.items() == a.items().push(e).push(CPInfo::LongDoubleDummy)
        &&& tables_kept(a, b)
        &&& r == a.items().len() + 1
    }
}

/// What `add_utf8` does for the text `s`: the index kept for `s` comes back, or a fresh
/// `Utf8` entry for `s` is appended, kept for `s`, and its index comes back.
pub open spec fn utf8_added(a: CPBuilder, b: CPBuilder, s: Seq<char>, r: u16) -> bool {
    if a.table(Table::Utf8s).contains_key(s) {
        same(a, b) && r == a.table(Table::Utf8s)[s]
    } else {
        &&& b.items().len() == a.items().len() + 1
        &&& b.items().drop_last() == a.items()
        &&& is_utf8_of(b.items().last(), s)
        &&& r == b.items().len()
        &&& b.table(Table::Utf8s) == a.table(Table::Utf8s).insert(s, r)
        &&& others_kept(a, b, Table::Utf8s)
    }
}

/// What `add_string` (`t` is `Strings`) or `add_class` (`t` is `Classes`) does for the
/// text `s`: the index kept for `s` comes back, or the `Utf8` entry of `s` is added,
/// then a fresh entry that points at it is appended and kept for `s`.
pub open spec fn text_ref_added(
    a: CPBuilder,
    b: CPBuilder,
    t: Table,
    s: Seq<char>,
    r: u16,
) -> bool {
    if a.table(t).contains_key(s) {
        same(a, b) && r == a.table(t)[s]
    } else {
        &&& b.table(t) == a.table(t).insert(s, r)
        &&& exists|m: CPBuilder, u: u16|
            #![trigger utf8_added(a, m, s, u)]
            {
                &&& utf8_added(a, m, s, u)
                &&& b.items() == m.items().push(
                    if t == Table::Strings {
                        CPInfo::String { string_index: u }
                    } else {
                        CPInfo::Class { name_index: u }
                    },
                )
                &&& r == b.items().len()
                &&& others_kept(m, b, t)
            }
    }
}

/// What `add_name_type` does: where the table of names and types keeps the key
/// `name%type`, that index comes back; else the `Utf8` entries of the name and the type are added, then a
/// fresh `NameAndType` entry that points at them is appended and kept for the key.
pub open spec fn name_type_added(
    a: CPBuilder,
    b: CPBuilder,
    name: Seq<char>,
    type_: Seq<char>,
    r: u16,
) -> bool {
    let key = name_type_key(name, type_);
    if a.table(Table::NameTypes).contains_key(key) {
        same(a, b) && r == a.table(Table::NameTypes)[key]
    } else {
        exists|m1: CPBuilder, m2: CPBuilder, ni: u16, ti: u16|
            #![trigger utf8_added(a, m1, name, ni), utf8_added(m1, m2, type_, ti)]
            {
                &&& utf8_added(a, m1, name, ni)
                &&& utf8_added(m1, m2, type_, ti)
                &&& b.items() == m2.items().push(
                    CPInfo::NameAndType { name_index: ni, descriptor_index: ti },
                )
                &&& r == b.items().len()
                &&& b.table(Table::NameTypes) == m2.table(Table::NameTypes).insert(key, r)
                &&& others_kept(m2, b, Table::NameTypes)
            }
    }
}

/// What `add_fieldref` (`t` is `Fieldrefs`), `add_methodref` (`Methodrefs`) or
/// `add_interface_methodref` (`InterfaceMethodrefs`) does: the index kept in `t` for the
/// key `class%name%type` comes back; else the name and type are added, then the class,
/// then a fresh reference to both is appended and kept for the key.
pub open spec fn member_added(
    a: CPBuilder,
    b: CPBuilder,
    t: Table,
    c_name: Seq<char>,
    name: Seq<char>,
    type_: Seq<char>,
    r: u16,
) -> bool {
    let key = member_key(c_name, name, type_);
    if a.table(t).contains_key(key) {
        same(a, b) && r == a.table(t)[key]
    } else {
        &&& b.table(t) == a.table(t).insert(key, r)
        &&& exists|m1: CPBuilder, m2: CPBuilder, nt: u16, ci: u16|
            #![trigger name_type_added(a, m1, name, type_, nt), text_ref_added(m1, m2, Table::Classes, c_name, ci)]
            {
                &&& name_type_added(a, m1, name, type_, nt)
                &&& text_ref_added(m1, m2, Table::Classes, c_name, ci)
                &&& b.items() == m2.items().push(member_entry(t, ci, nt))
                &&& r == b.items().len()
                &&& others_kept(m2, b, t)
            }
    }
}


/// `b` keeps every table of `a` but `t` and `u`.
pub open spec fn others_kept2(a: CPBuilder, b: CPBuilder, t: Table, u: Table) -> bool {
    forall|v: Table| v != t && v != u ==> #[trigger] b.table(v) == a.table(v)
}

/// Keeping the index `r` of a fitting entry for a key `k` of the table `t` leaves a
/// well-formed builder well-formed.
proof fn lemma_wf_insert(a: CPBuilder, b: CPBuilder, t: Table, k: Seq<char>, r: u16)
    requires
        a.wf(),
        b.items() == a.items(),
        b.table(t) == a.table(t).insert(k, r),
        others_kept(a, b, t),
        1 <= r <= a.items().len(),
        kept_kind(t, a.items()[r - 1]),
        t == Table::Utf8s ==> !a.table(Table::Utf8s).contains_key(k) && is_utf8_of(
            a.items()[r - 1],
            k,
        ),
        t == Table::Strings ==> a.table(Table::Utf8s).contains_key(k) && a.items()[r - 1]
            == (CPInfo::String { string_index: a.table(Table::Utf8s)[k] }),
        t == Table::Classes ==> a.table(Table::Utf8s).contains_key(k) && a.items()[r - 1]
            == (CPInfo::Class { name_index: a.table(Table::Utf8s)[k] }),
    ensures
        b.wf(),
{
    assert forall|u: Table, j: Seq<char>| #[trigger] b.table(u).contains_key(j) implies 1 <= b.table(
        u,
    )[j] <= b.items().len() && kept_kind(u, b.items()[b.table(u)[j] - 1]) by {
        if u != t {
            assert(b.table(u) == a.table(u));
        } else if j != k {
            assert(a.table(u).contains_key(j));
        }
    }
    assert forall|j: Seq<char>| #[trigger] b.table(Table::Utf8s).contains_key(j) implies is_utf8_of(
        b.items()[b.table(Table::Utf8s)[j] - 1],
        j,
    ) by {
        if t != Table::Utf8s {
            assert(b.table(Table::Utf8s) == a.table(Table::Utf8s));
        } else if j != k {
            assert(a.table(Table::Utf8s).contains_key(j));
        }
    }
    assert forall|j: Seq<char>| #[trigger] b.table(Table::Strings).contains_key(j) implies b.table(
        Table::Utf8s,
    ).contains_key(j) && b.items()[b.table(Table::Strings)[j] - 1] == CPInfo::String {
        string_index: b.table(Table::Utf8s)[j],
    } by {
        if t != Table::Strings {
            assert(b.table(Table::Strings) == a.table(Table::Strings));
            assert(a.table(Table::Strings).contains_key(j));
            if t != Table::Utf8s {
                assert(b.table(Table::Utf8s) == a.table(Table::Utf8s));
            }
        } else {
            assert(b.table(Table::Utf8s) == a.table(Table::Utf8s));
            if j != k {
                assert(a.table(Table::Strings).contains_key(j));
            }
        }
    }
    assert forall|j: Seq<char>| #[trigger] b.table(Table::Classes).contains_key(j) implies b.table(
        Table::Utf8s,
    ).contains_key(j) && b.items()[b.table(Table::Classes)[j] - 1] == CPInfo::Class {
        name_index: b.table(Table::Utf8s)[j],
    } by {
        if t != Table::Classes {
            assert(b.table(Table::Classes) == a.table(Table::Classes));
            assert(a.table(Table::Classes).contains_key(j));
            if t != Table::Utf8s {
                assert(b.table(Table::Utf8s) == a.table(Table::Utf8s));
            }
        } else {
            assert(b.table(Table::Utf8s) == a.table(Table::Utf8s));
            if j != k {
                assert(a.table(Table::Classes).contains_key(j));
            }
        }
    }
}

/// Keeping an index for a new key grows a builder.
proof fn lemma_grows_insert(a: CPBuilder, b: CPBuilder, t: Table, k: Seq<char>, r: u16)
    requires
        b.items() == a.items(),
        b.table(t) == a.table(t).insert(k, r),
        others_kept(a, b, t),
        !a.table(t).contains_key(k),
    ensures
        grows(a, b),
{
    assert(b.items().subrange(0, a.items().len() as int) =~= a.items());
    assert forall|u: Table, j: Seq<char>|
        #[trigger] a.table(u).contains_key(j) implies b.table(u).contains_key(
        j,
    ) && b.table(u)[j] == a.table(u)[j] by {
        if u != t {
            assert(b.table(u) == a.table(u));
        }
    }
}

/// A builder grows into itself.
proof fn lemma_grows_refl(a: CPBuilder)
    ensures
        grows(a, a),
{
    assert(a.items().subrange(0, a.items().len() as int) =~= a.items());
}

/// Growing is transitive.
proof fn lemma_grows_trans(a: CPBuilder, b: CPBuilder, c: CPBuilder)
    requires
        grows(a, b),
        grows(b, c),
    ensures
        grows(a, c),
{
    assert(c.items().subrange(0, a.items().len() as int) =~= c.items().subrange(
        0,
        b.items().len() as int,
    ).subrange(0, a.items().len() as int));
    assert forall|t: Table, k: Seq<char>|
        #[trigger] a.table(t).contains_key(k) implies c.table(t).contains_key(
        k,
    ) && c.table(t)[k] == a.table(t)[k] by {
        assert(b.table(t).contains_key(k));
    }
}

/// Entries appended after those of a well-formed builder, with its tables kept, leave it
/// well-formed.
proof fn lemma_wf_extend(a: CPBuilder, b: CPBuilder)
    requires
        a.wf(),
        a.items().len() <= b.items().len() <= 65535,
        b.items().subrange(0, a.items().len() as int) == a.items(),
        tables_kept(a, b),
        wide_layout(b.items()),
        links_back(b.items()),
    ensures
        b.wf(),
{
    assert forall|i: int| 0 <= i < a.items().len() implies b.items()[i] == a.items()[i] by {
        assert(b.items().subrange(0, a.items().len() as int)[i] == b.items()[i]);
    }
    assert forall|t: Table, k: Seq<char>| #[trigger] b.table(t).contains_key(k) implies 1 <= b.table(
        t,
    )[k] <= b.items().len() && kept_kind(t, b.items()[b.table(t)[k] - 1]) by {
        assert(b.table(t) == a.table(t));
    }
    assert forall|k: Seq<char>| #[trigger] b.table(Table::Utf8s).contains_key(k) implies is_utf8_of(
        b.items()[b.table(Table::Utf8s)[k] - 1],
        k,
    ) by {
        assert(b.table(Table::Utf8s) == a.table(Table::Utf8s));
        assert(a.table(Table::Utf8s).contains_key(k));
    }
    assert forall|k: Seq<char>| #[trigger] b.table(Table::Strings).contains_key(k) implies b.table(
        Table::Utf8s,
    ).contains_key(k) && b.items()[b.table(Table::Strings)[k] - 1] == CPInfo::String {
        string_index: b.table(Table::Utf8s)[k],
    } by {
        assert(b.table(Table::Utf8s) == a.table(Table::Utf8s));
        assert(b.table(Table::Strings) == a.table(Table::Strings));
        assert(a.table(Table::Strings).contains_key(k));
    }
    assert forall|k: Seq<char>| #[trigger] b.table(Table::Classes).contains_key(k) implies b.table(
        Table::Utf8s,
    ).contains_key(k) && b.items()[b.table(Table::Classes)[k] - 1] == CPInfo::Class {
        name_index: b.table(Table::Utf8s)[k],
    } by {
        assert(b.table(Table::Utf8s) == a.table(Table::Utf8s));
        assert(b.table(Table::Classes) == a.table(Table::Classes));
        assert(a.table(Table::Classes).contains_key(k));
    }
}

/// The characters of `a`, a `%`, then those of `b`.
fn join_key(a: &str, b: &str) -> (k: Vec<char>)
    ensures
        k@ == a@ + seq!['%'] + b@,
{
    let mut k = chars_of(a);
    k.push('%');
    push_str(&mut k, b);
    k
}

/// The bytes of `s`, UTF-8 encoded.
fn utf8_bytes(s: &str) -> (v: Vec<u8>)
    ensures
        v@ == encode_utf8(s@),
{
    let b = s.as_bytes();
    let mut v: Vec<u8> = Vec::new();
    let mut i: usize = 0;
    while i < b.len()
        invariant
            i <= b@.len(),
            v@ == b@.take(i as int),
        decreases b@.len() - i,
    {
        v.push(b[i]);
        assert(b@.take(i + 1) =~= b@.take(i as int).push(b@[i as int]));
        i = i + 1;
    }
    assert(b@.take(b@.len() as int) =~= b@);
    v
}

/// The index `ind`.
fn index_of(ind: u16) -> (r: CPIndex)
    ensures
        r@ == ind,
{
    proof {
        CPIndex::lemma_new_view(ind);
    }
    CPIndex::from(ind)
}

impl CPBuilder {
    /// A builder with no entries.
    pub fn new() -> (b: CPBuilder)
        ensures
            b.wf(),
            b.items() == Seq::<CPInfo>::empty(),
            forall|t: Table| #[trigger] b.table(t) == Map::<Seq<char>, u16>::empty(),
    {
        CPBuilder {
            items: Vec::new(),
            string_table: KeyTable::new(),
            class_table: KeyTable::new(),
            utf8_table: KeyTable::new(),
            name_type_table: KeyTable::new(),
            fieldref_table: KeyTable::new(),
            methodref_table: KeyTable::new(),
            imethodref_table: KeyTable::new(),
        }
    }

    /// How many entries (slots) have been added so far.
    pub fn size(&self) -> (n: usize)
        ensures
            n == self.items().len(),
    {
        self.items.len()
    }

    /// The constant pool made of the entries added so far.
    pub fn build(self) -> (cp: ConstantPool)
        ensures
            cp@ == self.items(),
    {
        ConstantPool::new_with_info(self.items)
    }

    /// The index (from 1) of the first entry equal to the number entry `e`, or `None`
    /// where there is none.
    fn find_entry(&self, e: &CPInfo) -> (r: Option<u16>)
        requires
            self.items().len() <= 65535,
            e is Integer || e is Float || e is Long || e is Double,
        ensures
            match r {
                Some(ind) => holds(self.items(), *e) && first_at(self.items(), *e, ind as int),
                None => !holds(self.items(), *e),
            },
    {
        let mut i: usize = 0;
        while i < self.items.len()
            invariant
                i <= self.items@.len(),
                self.items@.len() <= 65535,
                e is Integer || e is Float || e is Long || e is Double,
                forall|j: int| 0 <= j < i ==> self.items@[j] != *e,
            decreases self.items@.len() - i,
        {
            let found = match (&self.items[i], e) {
                (CPInfo::Integer { bytes: x }, CPInfo::Integer { bytes: y }) => *x == *y,
                (CPInfo::Float { bytes: x }, CPInfo::Float { bytes: y }) => *x == *y,
                (CPInfo::Long { bytes: x }, CPInfo::Long { bytes: y }) => *x == *y,
                (CPInfo::Double { bytes: x }, CPInfo::Double { bytes: y }) => *x == *y,
                _ => false,
            };
            if found {
                assert(self.items@[i as int] == *e);
                return Some(i as u16 + 1);
            }
            i = i + 1;
        }
        None
    }

    /// Appends `e`, which takes one slot.
    fn push_single(&mut self, e: CPInfo) -> (r: CPIndex)
        requires
            e is Integer || e is Float,
            old(self).wf(),
            old(self).has_room(1),
        ensures
            final(self).wf(),
            final(self).items() == old(self).items().push(e),
            tables_kept(*old(self), *final(self)),
            grows(*old(self), *final(self)),
            r@ == old(self).items().len() + 1,
    {
        let ind = self.items.len() as u16 + 1;
        let ghost a = *self;
        self.items.push(e);
        proof {
            assert(self.items().subrange(0, a.items().len() as int) =~= a.items());
            lemma_layout_push(a.items(), e);
            lemma_wf_extend(a, *self);
        }
        index_of(ind)
    }

    /// Appends `e` and the filler of its second slot.
    fn push_wide(&mut self, e: CPInfo) -> (r: CPIndex)
        requires
            e is Long || e is Double,
            old(self).wf(),
            old(self).has_room(2),
        ensures
            final(self).wf(),
            final(self).items() == old(self).items().push(e).push(CPInfo::LongDoubleDummy),
            tables_kept(*old(self), *final(self)),
            grows(*old(self), *final(self)),
            r@ == old(self).items().len() + 1,
    {
        let ind = self.items.len() as u16 + 1;
        let ghost a = *self;
        self.items.push(e);
        self.items.push(CPInfo::LongDoubleDummy);
        proof {
            assert(self.items().subrange(0, a.items().len() as int) =~= a.items());
            lemma_layout_push_wide(a.items(), e);
            lemma_wf_extend(a, *self);
        }
        index_of(ind)
    }

    /// Adds an `Integer` entry holding `val`, or finds the first one there is.
    pub fn add_integer(&mut self, val: u32) -> (r: CPIndex)
        requires
            old(self).wf(),
            holds(old(self).items(), CPInfo::Integer { bytes: val }) || old(self).has_room(1),
        ensures
            final(self).wf(),
            single_added(*old(self), *final(self), (CPInfo::Integer { bytes: val }), r@),
            grows(*old(self), *final(self)),
            1 <= r@ <= final(self).items().len(),
            entry_for(final(self).items(), AddCall::Integer(val), r@),
            final(self).items()[r@ - 1] == (CPInfo::Integer { bytes: val }),
    {
        let e = CPInfo::Integer { bytes: val };
        match self.find_entry(&e) {
            Some(ind) => {
                proof {
                    lemma_grows_refl(*self);
                }
                index_of(ind)
            },
            None => self.push_single(e),
        }
    }

    /// Adds a `Long` entry holding `val` (and the filler of its second slot), or finds
    /// the first one there is.
    pub fn add_long(&mut self, val: u64) -> (r: CPIndex)
        requires
            old(self).wf(),
            holds(old(self).items(), CPInfo::Long { bytes: val }) || old(self).has_room(2),
        ensures
            final(self).wf(),
            wide_added(*old(self), *final(self), (CPInfo::Long { bytes: val }), r@),
            grows(*old(self), *final(self)),
            1 <= r@ <= final(self).items().len(),
            entry_for(final(self).items(), AddCall::Long(val), r@),
            final(self).items()[r@ - 1] == (CPInfo::Long { bytes: val }),
    {
        let e = CPInfo::Long { bytes: val };
        match self.find_entry(&e) {
            Some(ind) => {
                proof {
                    lemma_grows_refl(*self);
                }
                index_of(ind)
            },
            None => self.push_wide(e),
        }
    }

    /// Adds a `Float` entry holding the bits `val`, or finds the first one there is.
    pub fn add_float(&mut self, val: u32) -> (r: CPIndex)
        requires
            old(self).wf(),
            holds(old(self).items(), CPInfo::Float { bytes: val }) || old(self).has_room(1),
        ensures
            final(self).wf(),
            single_added(*old(self), *final(self), (CPInfo::Float { bytes: val }), r@),
            grows(*old(self), *final(self)),
            1 <= r@ <= final(self).items().len(),
            entry_for(final(self).items(), AddCall::Float(val), r@),
            final(self).items()[r@ - 1] == (CPInfo::Float { bytes: val }),
    {
        let e = CPInfo::Float { bytes: val };
        match self.find_entry(&e) {
            Some(ind) => {
                proof {
                    lemma_grows_refl(*self);
                }
                index_of(ind)
            },
            None => self.push_single(e),
        }
    }

    /// Adds a `Double` entry holding the bits `val` (and the filler of its second slot),
    /// or finds the first one there is.
    pub fn add_double(&mut self, val: u64) -> (r: CPIndex)
        requires
            old(self).wf(),
            holds(old(self).items(), CPInfo::Double { bytes: val }) || old(self).has_room(2),
        ensures
            final(self).wf(),
            wide_added(*old(self), *final(self), (CPInfo::Double { bytes: val }), r@),
            grows(*old(self), *final(self)),
            1 <= r@ <= final(self).items().len(),
            entry_for(final(self).items(), AddCall::Double(val), r@),
            final(self).items()[r@ - 1] == (CPInfo::Double { bytes: val }),
    {
        let e = CPInfo::Double { bytes: val };
        match self.find_entry(&e) {
            Some(ind) => {
                proof {
                    lemma_grows_refl(*self);
                }
                index_of(ind)
            },
            None => self.push_wide(e),
        }
    }

    /// Adds a `Utf8` entry holding the UTF-8 bytes of `s`, or gives the index kept for
    /// `s`.
    pub fn add_utf8(&mut self, s: String) -> (r: CPIndex)
        requires
            old(self).wf(),
            old(self).has_room(utf8_need(*old(self), s@)),
        ensures
            final(self).wf(),
            final(self).items().len() == old(self).items().len() + utf8_need(*old(self), s@),
            final(self).table(Table::Utf8s).dom() == old(self).table(Table::Utf8s).dom().insert(s@),
            utf8_added(*old(self), *final(self), s@, r@),
            grows(*old(self), *final(self)),
            others_kept(*old(self), *final(self), Table::Utf8s),
            1 <= r@ <= final(self).items().len(),
            entry_for(final(self).items(), AddCall::Utf8(s@), r@),
            final(self).table(Table::Utf8s).contains_key(s@),
            final(self).table(Table::Utf8s)[s@] == r@,
            is_utf8_of(final(self).items()[r@ - 1], s@),
    {
        let key = chars_of(s.as_str());
        match self.utf8_table.get(&key) {
            Some(ind) => {
                proof {
                    lemma_grows_refl(*self);
                }
                ind
            },
            None => {
                let ind = index_of(self.items.len() as u16 + 1);
                let ghost a = *self;
                let bytes = utf8_bytes(s.as_str());
                let length = bytes.len() as u16;
                self.items.push(CPInfo::Utf8 { length, bytes });
                let ghost mid = *self;
                proof {
                    assert(mid.items().subrange(0, a.items().len() as int) =~= a.items());
                    lemma_layout_push(a.items(), mid.items().last());
                    lemma_wf_extend(a, mid);
                }
                self.utf8_table.insert(key, ind);
                proof {
                    assert(mid.items().drop_last() =~= a.items());
                    lemma_wf_insert(mid, *self, Table::Utf8s, s@, ind@);
                    lemma_grows_insert(mid, *self, Table::Utf8s, s@, ind@);
                    lemma_grows_trans(a, mid, *self);
                }
                ind
            },
        }
    }

    /// Adds a `String` entry that points at the `Utf8` entry of `s` (adding that too, where
    /// it is missing), or gives the index kept for `s`.
    pub fn add_string(&mut self, s: String) -> (r: CPIndex)
        requires
            old(self).wf(),
            old(self).has_room(text_ref_need(*old(self), Table::Strings, s@)),
        ensures
            final(self).wf(),
            final(self).items().len() == old(self).items().len() + text_ref_need(
                *old(self),
                Table::Strings,
                s@,
            ),
            text_ref_added(*old(self), *final(self), Table::Strings, s@, r@),
            grows(*old(self), *final(self)),
            others_kept2(*old(self), *final(self), Table::Strings, Table::Utf8s),
            1 <= r@ <= final(self).items().len(),
            entry_for(final(self).items(), AddCall::String(s@), r@),
            final(self).table(Table::Strings).contains_key(s@),
            final(self).table(Table::Strings)[s@] == r@,
            final(self).table(Table::Utf8s).contains_key(s@),
            final(self).items()[r@ - 1] == (CPInfo::String { string_index: final(self).table(Table::Utf8s)[s@] }),
    {
        let key = chars_of(s.as_str());
        match self.string_table.get(&key) {
            Some(ind) => {
                proof {
                    lemma_grows_refl(*self);
                    lemma_text_ref_entry(*self, Table::Strings, s@, ind@);
                }
                ind
            },
            None => {
                let ghost a = *self;
                let utf8_index = self.add_utf8(s.clone());
                let ghost m = *self;
                proof {
                    assert(m.table(Table::Strings) == a.table(Table::Strings));
                }
                let ind = index_of(self.items.len() as u16 + 1);
                self.items.push(CPInfo::String { string_index: utf8_index.as_u16() });
                let ghost mid = *self;
                proof {
                    assert(mid.items().subrange(0, m.items().len() as int) =~= m.items());
                    lemma_layout_push(m.items(), mid.items().last());
                    lemma_wf_extend(m, mid);
                    lemma_grows_trans(a, m, mid);
                }
                self.string_table.insert(key, ind);
                proof {
                    lemma_wf_insert(mid, *self, Table::Strings, s@, ind@);
                    lemma_grows_insert(mid, *self, Table::Strings, s@, ind@);
                    lemma_grows_trans(a, mid, *self);
                    assert(utf8_added(a, m, s@, utf8_index@));
                    assert forall|v: Table| v != Table::Strings && v != Table::Utf8s implies #[trigger] self.table(v)
                        == a.table(v) by {
                        assert(m.table(v) == a.table(v));
                        assert(self.table(v) == mid.table(v));
                    }
                    lemma_text_ref_entry(*self, Table::Strings, s@, ind@);
                }
                ind
            },
        }
    }

    /// Adds a `Class` entry that points at the `Utf8` entry of `name` (adding that too, where
    /// it is missing), or gives the index kept for `name`.
    pub fn add_class(&mut self, name: String) -> (r: CPIndex)
        requires
            old(self).wf(),
            old(self).has_room(text_ref_need(*old(self), Table::Classes, name@)),
        ensures
            final(self).wf(),
            final(self).items().len() == old(self).items().len() + text_ref_need(
                *old(self),
                Table::Classes,
                name@,
            ),
            text_ref_added(*old(self), *final(self), Table::Classes, name@, r@),
            grows(*old(self), *final(self)),
            others_kept2(*old(self), *final(self), Table::Classes, Table::Utf8s),
            1 <= r@ <= final(self).items().len(),
            entry_for(final(self).items(), AddCall::Class(name@), r@),
            final(self).table(Table::Classes).contains_key(name@),
            final(self).table(Table::Classes)[name@] == r@,
            final(self).table(Table::Utf8s).contains_key(name@),
            final(self).items()[r@ - 1] == (CPInfo::Class { name_index: final(self).table(Table::Utf8s)[name@] }),
    {
        let key = chars_of(name.as_str());
        match self.class_table.get(&key) {
            Some(ind) => {
                proof {
                    lemma_grows_refl(*self);
                    lemma_text_ref_entry(*self, Table::Classes, name@, ind@);
                }
                ind
            },
            None => {
                let ghost a = *self;
                let utf8_index = self.add_utf8(name.clone());
                let ghost m = *self;
                proof {
                    assert(m.table(Table::Classes) == a.table(Table::Classes));
                }
                let ind = index_of(self.items.len() as u16 + 1);
                self.items.push(CPInfo::Class { name_index: utf8_index.as_u16() });
                let ghost mid = *self;
                proof {
                    assert(mid.items().subrange(0, m.items().len() as int) =~= m.items());
                    lemma_layout_push(m.items(), mid.items().last());
                    lemma_wf_extend(m, mid);
                    lemma_grows_trans(a, m, mid);
                }
                self.class_table.insert(key, ind);
                proof {
                    lemma_wf_insert(mid, *self, Table::Classes, name@, ind@);
                    lemma_grows_insert(mid, *self, Table::Classes, name@, ind@);
                    lemma_grows_trans(a, mid, *self);
                    assert(utf8_added(a, m, name@, utf8_index@));
                    assert forall|v: Table| v != Table::Classes && v != Table::Utf8s implies #[trigger] self.table(v)
                        == a.table(v) by {
                        assert(m.table(v) == a.table(v));
                        assert(self.table(v) == mid.table(v));
                    }
                    lemma_text_ref_entry(*self, Table::Classes, name@, ind@);
                }
                ind
            },
        }
    }

    /// Adds a `NameAndType` entry that points at the `Utf8` entries of `name` and `type_`
    /// (adding those, where they are missing), or gives the index kept for the key
    /// `name%type`.
    #[verifier::rlimit(50)]
    pub fn add_name_type(&mut self, name: String, type_: String) -> (r: CPIndex)
        requires
            old(self).wf(),
            old(self).has_room(name_type_need(*old(self), name@, type_@)),
        ensures
            final(self).wf(),
            final(self).items().len() == old(self).items().len() + name_type_need(
                *old(self),
                name@,
                type_@,
            ),
            final(self).table(Table::Utf8s).dom() == (if old(self).table(Table::NameTypes).contains_key(
                name_type_key(name@, type_@),
            ) {
                old(self).table(Table::Utf8s).dom()
            } else {
                old(self).table(Table::Utf8s).dom().insert(name@).insert(type_@)
            }),
            name_type_added(*old(self), *final(self), name@, type_@, r@),
            grows(*old(self), *final(self)),
            others_kept2(*old(self), *final(self), Table::NameTypes, Table::Utf8s),
            1 <= r@ <= final(self).items().len(),
            entry_for(final(self).items(), AddCall::NameType, r@),
    {
        let key = join_key(name.as_str(), type_.as_str());
        match self.name_type_table.get(&key) {
            Some(ind) => {
                proof {
                    lemma_grows_refl(*self);
                }
                ind
            },
            None => {
                let ghost a = *self;
                let name_index = self.add_utf8(name);
                let ghost m1 = *self;
                let type_index = self.add_utf8(type_);
                let ghost m2 = *self;
                let ind = index_of(self.items.len() as u16 + 1);
                self.items.push(
                    CPInfo::NameAndType {
                        name_index: name_index.as_u16(),
                        descriptor_index: type_index.as_u16(),
                    },
                );
                let ghost mid = *self;
                proof {
                    assert(mid.items().subrange(0, m2.items().len() as int) =~= m2.items());
                    lemma_layout_push(m2.items(), mid.items().last());
                    lemma_wf_extend(m2, mid);
                    lemma_grows_trans(a, m1, m2);
                    lemma_grows_trans(a, m2, mid);
                }
                proof {
                    assert(m1.table(Table::NameTypes) == a.table(Table::NameTypes));
                    assert(m2.table(Table::NameTypes) == m1.table(Table::NameTypes));
                    assert(mid.table(Table::NameTypes) == m2.table(Table::NameTypes));
                }
                self.name_type_table.insert(key, ind);
                proof {
                    lemma_wf_insert(mid, *self, Table::NameTypes, key@, ind@);
                    lemma_grows_insert(mid, *self, Table::NameTypes, key@, ind@);
                    lemma_grows_trans(a, mid, *self);
                    assert(utf8_added(a, m1, name@, name_index@));
                    assert(utf8_added(m1, m2, type_@, type_index@));
                    assert forall|v: Table| v != Table::NameTypes && v != Table::Utf8s implies #[trigger] self.table(v)
                        == a.table(v) by {
                        assert(m1.table(v) == a.table(v));
                        assert(m2.table(v) == m1.table(v));
                        assert(self.table(v) == mid.table(v));
                    }
                }
                ind
            },
        }
    }

    /// Adds a `Fieldref` entry that points at the name and type and at the class (adding
    /// those as `add_name_type` and `add_class` do), or gives the index kept for the key
    /// `class%name%type`.
    #[verifier::rlimit(50)]
    pub fn add_fieldref(&mut self, c_name: String, name: String, type_: String) -> (r: CPIndex)
        requires
            old(self).wf(),
            old(self).has_room(member_need(*old(self), Table::Fieldrefs, c_name@, name@, type_@)),
        ensures
            final(self).wf(),
            member_added(*old(self), *final(self), Table::Fieldrefs, c_name@, name@, type_@, r@),
            grows(*old(self), *final(self)),
            1 <= r@ <= final(self).items().len(),
            entry_for(final(self).items(), AddCall::Member(Table::Fieldrefs), r@),
            final(self).items()[r@ - 1] is Fieldref,
            final(self).table(Table::Fieldrefs).contains_key(member_key(c_name@, name@, type_@)),
            final(self).table(Table::Fieldrefs)[member_key(c_name@, name@, type_@)] == r@,
    {
        let mut key = join_key(c_name.as_str(), name.as_str());
        key.push('%');
        push_str(&mut key, type_.as_str());
        proof {
            assert(key@ =~= member_key(c_name@, name@, type_@));
        }
        match self.fieldref_table.get(&key) {
            Some(ind) => {
                proof {
                    lemma_grows_refl(*self);
                }
                ind
            },
            None => {
                let ghost a = *self;
                let name_and_type_index = self.add_name_type(name, type_);
                let ghost m1 = *self;
                let class_index = self.add_class(c_name);
                let ghost m2 = *self;
                proof {
                    assert(m1.table(Table::Fieldrefs) == a.table(Table::Fieldrefs));
                    assert(m2.table(Table::Fieldrefs) == m1.table(Table::Fieldrefs));
                }
                let ind = index_of(self.items.len() as u16 + 1);
                self.items.push(
                    CPInfo::Fieldref {
                        class_index: class_index.as_u16(),
                        name_and_type_index: name_and_type_index.as_u16(),
                    },
                );
                let ghost mid = *self;
                proof {
                    assert(mid.items().subrange(0, m2.items().len() as int) =~= m2.items());
                    lemma_layout_push(m2.items(), mid.items().last());
                    lemma_wf_extend(m2, mid);
                    lemma_grows_trans(a, m1, m2);
                    lemma_grows_trans(a, m2, mid);
                }
                self.fieldref_table.insert(key, ind);
                proof {
                    lemma_wf_insert(mid, *self, Table::Fieldrefs, key@, ind@);
                    lemma_grows_insert(mid, *self, Table::Fieldrefs, key@, ind@);
                    lemma_grows_trans(a, mid, *self);
                    assert(name_type_added(a, m1, name@, type_@, name_and_type_index@));
                    assert(text_ref_added(m1, m2, Table::Classes, c_name@, class_index@));
                    assert(self.items() == m2.items().push(
                        member_entry(Table::Fieldrefs, class_index@, name_and_type_index@),
                    ));
                }
                ind
            },
        }
    }

    /// Adds a `Methodref` entry that points at the name and type and at the class (adding
    /// those as `add_name_type` and `add_class` do), or gives the index kept for the key
    /// `class%name%type`.
    #[verifier::rlimit(50)]
    pub fn add_methodref(&mut self, c_name: String, name: String, type_: String) -> (r: CPIndex)
        requires
            old(self).wf(),
            old(self).has_room(member_need(*old(self), Table::Methodrefs, c_name@, name@, type_@)),
        ensures
            final(self).wf(),
            member_added(*old(self), *final(self), Table::Methodrefs, c_name@, name@, type_@, r@),
            grows(*old(self), *final(self)),
            1 <= r@ <= final(self).items().len(),
            entry_for(final(self).items(), AddCall::Member(Table::Methodrefs), r@),
            final(self).items()[r@ - 1] is Methodref,
            final(self).table(Table::Methodrefs).contains_key(member_key(c_name@, name@, type_@)),
            final(self).table(Table::Methodrefs)[member_key(c_name@, name@, type_@)] == r@,
    {
        let mut key = join_key(c_name.as_str(), name.as_str());
        key.push('%');
        push_str(&mut key, type_.as_str());
        proof {
            assert(key@ =~= member_key(c_name@, name@, type_@));
        }
        match self.methodref_table.get(&key) {
            Some(ind) => {
                proof {
                    lemma_grows_refl(*self);
                }
                ind
            },
            None => {
                let ghost a = *self;
                let name_and_type_index = self.add_name_type(name, type_);
                let ghost m1 = *self;
                let class_index = self.add_class(c_name);
                let ghost m2 = *self;
                proof {
                    assert(m1.table(Table::Methodrefs) == a.table(Table::Methodrefs));
                    assert(m2.table(Table::Methodrefs) == m1.table(Table::Methodrefs));
                }
                let ind = index_of(self.items.len() as u16 + 1);
                self.items.push(
                    CPInfo::Methodref {
                        class_index: class_index.as_u16(),
                        name_and_type_index: name_and_type_index.as_u16(),
                    },
                );
                let ghost mid = *self;
                proof {
                    assert(mid.items().subrange(0, m2.items().len() as int) =~= m2.items());
                    lemma_layout_push(m2.items(), mid.items().last());
                    lemma_wf_extend(m2, mid);
                    lemma_grows_trans(a, m1, m2);
                    lemma_grows_trans(a, m2, mid);
                }
                self.methodref_table.insert(key, ind);
                proof {
                    lemma_wf_insert(mid, *self, Table::Methodrefs, key@, ind@);
                    lemma_grows_insert(mid, *self, Table::Methodrefs, key@, ind@);
                    lemma_grows_trans(a, mid, *self);
                    assert(name_type_added(a, m1, name@, type_@, name_and_type_index@));
                    assert(text_ref_added(m1, m2, Table::Classes, c_name@, class_index@));
                    assert(self.items() == m2.items().push(
                        member_entry(Table::Methodrefs, class_index@, name_and_type_index@),
                    ));
                }
                ind
            },
        }
    }

    /// Adds a `InterfaceMethodref` entry that points at the name and type and at the class (adding
    /// those as `add_name_type` and `add_class` do), or gives the index kept for the key
    /// `class%name%type`.
    #[verifier::rlimit(50)]
    pub fn add_interface_methodref(&mut self, c_name: String, name: String, type_: String) -> (r: CPIndex)
        requires
            old(self).wf(),
            old(self).has_room(member_need(*old(self), Table::InterfaceMethodrefs, c_name@, name@, type_@)),
        ensures
            final(self).wf(),
            member_added(*old(self), *final(self), Table::InterfaceMethodrefs, c_name@, name@, type_@, r@),
            grows(*old(self), *final(self)),
            1 <= r@ <= final(self).items().len(),
            entry_for(final(self).items(), AddCall::Member(Table::InterfaceMethodrefs), r@),
            final(self).items()[r@ - 1] is InterfaceMethodref,
            final(self).table(Table::InterfaceMethodrefs).contains_key(member_key(c_name@, name@, type_@)),
            final(self).table(Table::InterfaceMethodrefs)[member_key(c_name@, name@, type_@)] == r@,
    {
        let mut key = join_key(c_name.as_str(), name.as_str());
        key.push('%');
        push_str(&mut key, type_.as_str());
        proof {
            assert(key@ =~= member_key(c_name@, name@, type_@));
        }
        match self.imethodref_table.get(&key) {
            Some(ind) => {
                proof {
                    lemma_grows_refl(*self);
                }
                ind
            },
            None => {
                let ghost a = *self;
                let name_and_type_index = self.add_name_type(name, type_);
                let ghost m1 = *self;
                let class_index = self.add_class(c_name);
                let ghost m2 = *self;
                proof {
                    assert(m1.table(Table::InterfaceMethodrefs) == a.table(Table::InterfaceMethodrefs));
                    assert(m2.table(Table::InterfaceMethodrefs) == m1.table(Table::InterfaceMethodrefs));
                }
                let ind = index_of(self.items.len() as u16 + 1);
                self.items.push(
                    CPInfo::InterfaceMethodref {
                        class_index: class_index.as_u16(),
                        name_and_type_index: name_and_type_index.as_u16(),
                    },
                );
                let ghost mid = *self;
                proof {
                    assert(mid.items().subrange(0, m2.items().len() as int) =~= m2.items());
                    lemma_layout_push(m2.items(), mid.items().last());
                    lemma_wf_extend(m2, mid);
                    lemma_grows_trans(a, m1, m2);
                    lemma_grows_trans(a, m2, mid);
                }
                self.imethodref_table.insert(key, ind);
                proof {
                    lemma_wf_insert(mid, *self, Table::InterfaceMethodrefs, key@, ind@);
                    lemma_grows_insert(mid, *self, Table::InterfaceMethodrefs, key@, ind@);
                    lemma_grows_trans(a, mid, *self);
                    assert(name_type_added(a, m1, name@, type_@, name_and_type_index@));
                    assert(text_ref_added(m1, m2, Table::Classes, c_name@, class_index@));
                    assert(self.items() == m2.items().push(
                        member_entry(Table::InterfaceMethodrefs, class_index@, name_and_type_index@),
                    ));
                }
                ind
            },
        }
    }
}

impl Default for CPBuilder {
    /// A builder with no entries.
    fn default() -> (b: CPBuilder)
        ensures
            b.wf(),
            b.items() == Seq::<CPInfo>::empty(),
            forall|t: Table| #[trigger] b.table(t) == Map::<Seq<char>, u16>::empty(),
    {
        CPBuilder::new()
    }
}

/// Adding the same `Integer` (or `Float`) entry a second time gives the index the first
/// call gave and changes nothing.
pub proof fn law_single_add_twice(
    a: CPBuilder,
    b1: CPBuilder,
    b2: CPBuilder,
    e: CPInfo,
    r1: u16,
    r2: u16,
)
    requires
        single_added(a, b1, e, r1),
        single_added(b1, b2, e, r2),
    ensures
        r2 == r1,
        same(b1, b2),
{
    if !holds(a.items(), e) {
        assert(b1.items()[a.items().len() as int] == e);
        if r2 - 1 < a.items().len() {
            assert(a.items()[r2 - 1] == e);
        }
    }
}

/// Adding the same `Long` (or `Double`) entry a second time gives the index the first
/// call gave and changes nothing.
pub proof fn law_wide_add_twice(
    a: CPBuilder,
    b1: CPBuilder,
    b2: CPBuilder,
    e: CPInfo,
    r1: u16,
    r2: u16,
)
    requires
        wide_added(a, b1, e, r1),
        wide_added(b1, b2, e, r2),
    ensures
        r2 == r1,
        same(b1, b2),
{
    if !holds(a.items(), e) {
        assert(b1.items()[a.items().len() as int] == e);
        if r2 - 1 < a.items().len() {
            assert(a.items()[r2 - 1] == e);
        }
    }
}

/// Adding the same text with `add_utf8` a second time gives the index the first call gave
/// and changes nothing.
pub proof fn law_utf8_add_twice(
    a: CPBuilder,
    b1: CPBuilder,
    b2: CPBuilder,
    s: Seq<char>,
    r1: u16,
    r2: u16,
)
    requires
        utf8_added(a, b1, s, r1),
        utf8_added(b1, b2, s, r2),
    ensures
        r2 == r1,
        same(b1, b2),
{
}

/// Adding the same text with `add_string` (`t` is `Strings`) or `add_class` (`t` is
/// `Classes`) a second time gives the index the first call gave and changes nothing.
pub proof fn law_text_ref_add_twice(
    a: CPBuilder,
    b1: CPBuilder,
    b2: CPBuilder,
    t: Table,
    s: Seq<char>,
    r1: u16,
    r2: u16,
)
    requires
        text_ref_added(a, b1, t, s, r1),
        text_ref_added(b1, b2, t, s, r2),
    ensures
        r2 == r1,
        same(b1, b2),
{
}

/// Adding the same name and type a second time gives the index the first call gave and
/// changes nothing.
pub proof fn law_name_type_add_twice(
    a: CPBuilder,
    b1: CPBuilder,
    b2: CPBuilder,
    name: Seq<char>,
    type_: Seq<char>,
    r1: u16,
    r2: u16,
)
    requires
        name_type_added(a, b1, name, type_, r1),
        name_type_added(b1, b2, name, type_, r2),
    ensures
        r2 == r1,
        same(b1, b2),
{
}

/// Adding the same field, method or interface method reference a second time gives the
/// index the first call gave and changes nothing.
pub proof fn law_member_add_twice(
    a: CPBuilder,
    b1: CPBuilder,
    b2: CPBuilder,
    t: Table,
    c_name: Seq<char>,
    name: Seq<char>,
    type_: Seq<char>,
    r1: u16,
    r2: u16,
)
    requires
        member_added(a, b1, t, c_name, name, type_, r1),
        member_added(b1, b2, t, c_name, name, type_, r2),
    ensures
        r2 == r1,
        same(b1, b2),
{
}

/// The index that a well-formed builder keeps for a text in its table of strings or of
/// classes names the entry for the matching call.
proof fn lemma_text_ref_entry(b: CPBuilder, t: Table, s: Seq<char>, r: u16)
    requires
        b.wf(),
        t == Table::Strings || t == Table::Classes,
        b.table(t).contains_key(s),
        b.table(t)[s] == r,
    ensures
        entry_for(
            b.items(),
            if t == Table::Strings {
                AddCall::String(s)
            } else {
                AddCall::Class(s)
            },
            r,
        ),
{
    assert(b.table(Table::Utf8s).contains_key(s));
    let u = b.table(Table::Utf8s)[s];
    assert(1 <= r <= b.items().len());
    assert(refs_of(b.items()[r - 1])[0] == u);
    assert(1 <= refs_of(b.items()[r - 1])[0] <= r - 1);
}

/// What a call named, it names in every longer pool that keeps its entries.
proof fn lemma_entry_for_kept(items: Seq<CPInfo>, longer: Seq<CPInfo>, call: AddCall, r: u16)
    requires
        entry_for(items, call, r),
        items.len() <= longer.len(),
        longer.subrange(0, items.len() as int) == items,
    ensures
        entry_for(longer, call, r),
{
    assert forall|i: int| 0 <= i < items.len() implies longer[i] == items[i] by {
        assert(longer.subrange(0, items.len() as int)[i] == longer[i]);
    }
}

proof fn lemma_grows_along(bs: Seq<CPBuilder>, j: int, i: int)
    requires
        0 <= j <= i < bs.len(),
        forall|k: int| 0 <= k < bs.len() - 1 ==> grows(bs[k], #[trigger] bs[k + 1]),
    ensures
        grows(bs[j], bs[i]),
    decreases i - j,
{
    if j == i {
        lemma_grows_refl(bs[j]);
    } else {
        lemma_grows_along(bs, j, i - 1);
        assert(grows(bs[i - 1], bs[i - 1 + 1]));
        lemma_grows_trans(bs[j], bs[i - 1], bs[i]);
    }
}

/// A pool built by a run of `add_*` calls from a builder `bs[0]`, `bs[j + 1]` being the
/// builder after the call `calls[j]`, which gave the index `rs[j]`: every index that a call
/// gave still names the entry for that call in the last builder; each `Long` and `Double`
/// of it is followed by the filler of its second slot, and each index held in an entry
/// names an earlier entry.
pub proof fn law_built_pool(bs: Seq<CPBuilder>, calls: Seq<AddCall>, rs: Seq<u16>)
    requires
        bs.len() == calls.len() + 1,
        rs.len() == calls.len(),
        forall|j: int|
            0 <= j < calls.len() ==> grows(bs[j], #[trigger] bs[j + 1]) && entry_for(
                bs[j + 1].items(),
                calls[j],
                rs[j],
            ),
        bs.last().wf(),
    ensures
        forall|j: int| 0 <= j < calls.len() ==> entry_for(bs.last().items(), #[trigger] calls[j], rs[j]),
        wide_layout(bs.last().items()),
        links_back(bs.last().items()),
{
    assert forall|k: int| 0 <= k < bs.len() - 1 implies grows(bs[k], #[trigger] bs[k + 1]) by {
        assert(0 <= k < calls.len());
    }
    assert forall|j: int| 0 <= j < calls.len() implies entry_for(
        bs.last().items(),
        #[trigger] calls[j],
        rs[j],
    ) by {
        assert(entry_for(bs[j + 1].items(), calls[j], rs[j]));
        lemma_grows_along(bs, j + 1, bs.len() - 1);
        lemma_entry_for_kept(bs[j + 1].items(), bs.last().items(), calls[j], rs[j]);
    }
}

} // verus!
