//! The constant pool of a class file.
use vstd::prelude::*;
use crate::cp_info::CPInfo;

verus! {

/// A struct representing the constant pool of a class file.
/// 1-indexed (to emulate the Java constant pool)
#[derive(Debug)]
pub struct ConstantPool {
    cp: Vec<CPInfo>,
}

/// An index into a constant pool; the first entry has index 1.
#[derive(Clone, Copy, Debug, PartialEq, Eq, Structural)]
pub struct CPIndex {
    ind: u16,
}

impl View for CPIndex {
    type V = u16;

    open spec fn view(&self) -> u16 {
        self.spec_u16()
    }
}

impl CPIndex {
    /// The number this index stands for.
    pub closed spec fn spec_u16(&self) -> u16 {
        self.ind
    }

    /// The index that stands for `ind`.
    pub closed spec fn spec_new(ind: u16) -> CPIndex {
        CPIndex { ind }
    }

    pub proof fn lemma_new_view(ind: u16)
        ensures
            CPIndex::spec_new(ind)@ == ind,
    {
    }

    pub fn as_u16(&self) -> (r: u16)
        ensures
            r == self@,
    {
        self.ind
    }
}

impl From<u16> for CPIndex {
    fn from(ind: u16) -> (r: CPIndex) {
        CPIndex { ind }
    }
}

impl vstd::std_specs::convert::FromSpecImpl<u16> for CPIndex {
    open spec fn obeys_from_spec() -> bool {
        true
    }

    open spec fn from_spec(v: u16) -> CPIndex {
        CPIndex::spec_new(v)
    }
}

impl Default for CPIndex {
    /// The index 0, which points at no entry.
    fn default() -> (r: CPIndex)
        ensures
            r@ == 0,
    {
        CPIndex { ind: 0 }
    }
}

impl View for ConstantPool {
    type V = Seq<CPInfo>;

    closed spec fn view(&self) -> Seq<CPInfo> {
        self.cp@
    }
}

impl Default for ConstantPool {
    /// Creates a new empty `ConstantPool`
    fn default() -> (r: ConstantPool)
        ensures
            r@ == Seq::<CPInfo>::empty(),
    {
        ConstantPool { cp: Vec::new() }
    }
}

/// `index` names an entry of a constant pool with the entries `cp` (1-indexed).
pub open spec fn cp_has(cp: Seq<CPInfo>, index: int) -> bool {
    1 <= index <= cp.len()
}

/// The entry at the 1-based `index` of a constant pool with the entries `cp`.
pub open spec fn cp_at(cp: Seq<CPInfo>, index: int) -> CPInfo {
    cp[index - 1]
}

impl ConstantPool {
    /// Creates a new `ConstantPool` using existing `CPInfo`
    ///
    /// # Arguments
    ///
    /// * `cpv` - holds the `CPInfo` to initialize the constant pool with
    pub fn new_with_info(cpv: Vec<CPInfo>) -> (r: ConstantPool)
        ensures
            r@ == cpv@,
    {
        ConstantPool { cp: cpv }
    }

    /// Returns the 1-indexed length of the constant pool
    pub fn len(&self) -> (l: u16)
        requires
            (self@.len() as u16) < u16::MAX,
        ensures
            l == (self@.len() as u16) + 1,
    {
        self.cp.len() as u16 + 1
    }

    pub fn is_empty(&self) -> (b: bool)
        ensures
            b == (self@.len() == 0),
    {
        self.cp.is_empty()
    }

    /// Returns a reference to the `Vec` containing the constants
    /// Use this for easy iteration
    pub fn items(&self) -> (v: &Vec<CPInfo>)
        ensures
            v@ == self@,
    {
        &self.cp
    }

    /// The entry at `index` (1-based).
    pub fn index(&self, index: CPIndex) -> (r: &CPInfo)
        requires
            cp_has(self@, index@ as int),
        ensures
            *r == cp_at(self@, index@ as int),
    {
        &self.cp[index.ind as usize - 1]
    }

    /// The entry at `index` (1-based), or `None` when no entry has that index.
    pub fn get(&self, index: u16) -> (r: Option<&CPInfo>)
        ensures
            cp_has(self@, index as int) ==> r == Some(&cp_at(self@, index as int)),
            !cp_has(self@, index as int) ==> r is None,
    {
        if index == 0 || index as usize > self.cp.len() {
            None
        } else {
            Some(&self.cp[index as usize - 1])
        }
    }
}

} // verus!
