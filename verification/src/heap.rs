//! The heap of the virtual machine: objects that packed pointers refer to by
//! handle, the roots that keep them, and the collector.

use std::collections::HashSet;
use vstd::prelude::*;
use vstd::std_specs::hash::group_hash_axioms;
use crate::bytekod::{Code, CodeView};

verus! {

broadcast use group_hash_axioms;

/// What a heap object holds.
#[derive(Debug)]
pub enum VMValue {
    Null,
    String(String),
    Code(Code),
}

pub enum VMValueView {
    Null,
    String(Seq<char>),
    Code(CodeView),
}

impl View for VMValue {
    type V = VMValueView;

    open spec fn view(&self) -> VMValueView {
        match self {
            VMValue::Null => VMValueView::Null,
            VMValue::String(s) => VMValueView::String(s@),
            VMValue::Code(c) => VMValueView::Code(c@),
        }
    }
}

impl VMValue {
    /// A value that holds the same.
    pub fn duplicate(&self) -> (v: Self)
        ensures
            v@ == self@,
    {
        match self {
            VMValue::Null => VMValue::Null,
            VMValue::String(s) => VMValue::String(s.clone()),
            VMValue::Code(c) => VMValue::Code(c.duplicate()),
        }
    }
}

/// A heap object. Its handle is what the payload of a packed pointer holds.
#[derive(Debug)]
pub struct VMObject {
    pub handle: u64,
    pub value: VMValue,
    pub marked: bool,
}

pub struct VMObjectView {
    pub handle: u64,
    pub value: VMValueView,
    pub marked: bool,
}

impl View for VMObject {
    type V = VMObjectView;

    open spec fn view(&self) -> VMObjectView {
        VMObjectView { handle: self.handle, value: self.value@, marked: self.marked }
    }
}

/// The index of the first object from `from` on with the given handle, or the
/// number of objects if there is none.
pub open spec fn position_from(objects: Seq<VMObjectView>, handle: u64, from: int) -> int
    decreases objects.len() - from,
{
    if from < 0 || from >= objects.len() {
        objects.len() as int
    } else if objects[from].handle == handle {
        from
    } else {
        position_from(objects, handle, from + 1)
    }
}

/// What the heap holds: its objects in the order of their allocation, the
/// handles that are roots, and the next handle.
pub struct HeapView {
    pub objects: Seq<VMObjectView>,
    pub roots: Set<u64>,
    pub next: u64,
}

impl HeapView {
    /// The heap after an object without a value was allocated.
    pub open spec fn allocated(self) -> HeapView {
        HeapView {
            objects: self.objects.push(
                VMObjectView { handle: self.next, value: VMValueView::Null, marked: false },
            ),
            next: (self.next + 1) as u64,
            ..self
        }
    }

    /// The index of the first object with the given handle, or the number of
    /// objects if there is none.
    pub open spec fn position(self, handle: u64) -> int {
        position_from(self.objects, handle, 0)
    }

    /// The heap after the objects with the given handle were given a value.
    pub open spec fn stored(self, handle: u64, value: VMValueView) -> HeapView {
        HeapView {
            objects: self.objects.map_values(
                |o: VMObjectView|
                    if o.handle == handle {
                        VMObjectView { value, ..o }
                    } else {
                        o
                    },
            ),
            ..self
        }
    }

    /// The heap after the given handle was made a root.
    pub open spec fn rooted(self, handle: u64) -> HeapView {
        HeapView { roots: self.roots.insert(handle), ..self }
    }

    /// The heap after every object that a root refers to was marked.
    pub open spec fn marked(self) -> HeapView {
        HeapView {
            objects: self.objects.map_values(
                |o: VMObjectView|
                    if self.roots.contains(o.handle) {
                        VMObjectView { marked: true, ..o }
                    } else {
                        o
                    },
            ),
            ..self
        }
    }

    /// The heap after every object without a mark was dropped.
    pub open spec fn swept(self) -> HeapView {
        HeapView { objects: self.objects.filter(|o: VMObjectView| o.marked), ..self }
    }

    /// The heap after a collection.
    pub open spec fn collected(self) -> HeapView {
        self.marked().swept()
    }

    /// The heap after an object with the given value was allocated and made a
    /// root.
    pub open spec fn with_object(self, value: VMValueView) -> HeapView {
        self.allocated().stored(self.next, value).rooted(self.next)
    }
}

/// The heap with its collector.
pub struct GarbageCollector {
    objects: Vec<VMObject>,
    roots: HashSet<u64>,
    next: u64,
}

impl View for GarbageCollector {
    type V = HeapView;

    closed spec fn view(&self) -> HeapView {
        HeapView {
            objects: self.objects@.map_values(|o: VMObject| o@),
            roots: self.roots@,
            next: self.next,
        }
    }
}

impl GarbageCollector {
    /// An empty heap.
    pub fn new() -> (gc: GarbageCollector)
        ensures
            gc@.objects == Seq::<VMObjectView>::empty(),
            gc@.roots == Set::<u64>::empty(),
            gc@.next == 0,
    {
        let gc = GarbageCollector { objects: Vec::new(), roots: HashSet::new(), next: 0 };
        assert(gc@.objects =~= Seq::<VMObjectView>::empty());
        gc
    }

    /// The handle that the next allocation returns.
    pub fn next_handle(&self) -> (handle: u64)
        ensures
            handle == self@.next,
    {
        self.next
    }

    /// Allocates an object without a value and returns its handle.
    pub fn allocate(&mut self) -> (handle: u64)
        requires
            old(self)@.next < u64::MAX,
        ensures
            handle == old(self)@.next,
            final(self)@ == old(self)@.allocated(),
    {
        let handle = self.next;
        self.objects.push(VMObject { handle, value: VMValue::Null, marked: false });
        self.next = self.next + 1;
        assert(self@.objects =~= old(self)@.allocated().objects);
        handle
    }

    /// Gives the objects with the given handle a value.
    pub fn store(&mut self, handle: u64, value: &VMValue)
        ensures
            final(self)@ == old(self)@.stored(handle, value@),
    {
        let mut i: usize = 0;
        while i < self.objects.len()
            invariant
                i <= self.objects@.len(),
                self.objects@.len() == old(self).objects@.len(),
                self.roots == old(self).roots,
                self.next == old(self).next,
                forall|j: int|
                    0 <= j < i ==> (#[trigger] self.objects@[j])@ == old(self)@.stored(
                        handle,
                        value@,
                    ).objects[j],
                forall|j: int|
                    i <= j < self.objects@.len() ==> #[trigger] self.objects@[j] == old(self).objects@[j],
            decreases self.objects@.len() - i,
        {
            if self.objects[i].handle == handle {
                self.objects[i].value = value.duplicate();
            }
            i += 1;
        }
        assert(self@.objects =~= old(self)@.stored(handle, value@).objects);
    }

    /// The value of the first object with the given handle, if there is one.
    pub fn value_of(&self, handle: u64) -> (r: Option<&VMValue>)
        ensures
            r is Some <==> self@.position(handle) < self@.objects.len(),
            r matches Some(v) ==> v@ == self@.objects[self@.position(handle)].value,
    {
        let ghost objects = self@.objects;
        let mut i: usize = 0;
        while i < self.objects.len()
            invariant
                i <= self.objects@.len(),
                objects == self@.objects,
                position_from(objects, handle, 0) == position_from(objects, handle, i as int),
            decreases self.objects@.len() - i,
        {
            assert(objects[i as int] == self.objects@[i as int]@);
            if self.objects[i].handle == handle {
                return Some(&self.objects[i].value);
            }
            i += 1;
        }
        None
    }

    /// Makes the given handle a root.
    pub fn add_root(&mut self, root: u64)
        ensures
            final(self)@ == old(self)@.rooted(root),
    {
        self.roots.insert(root);
    }

    /// Whether the given handle is a root.
    pub fn is_root(&self, handle: u64) -> (b: bool)
        ensures
            b == self@.roots.contains(handle),
    {
        self.roots.contains(&handle)
    }

    /// Marks what the roots refer to and drops what has no mark.
    pub fn collect(&mut self)
        ensures
            final(self)@ == old(self)@.collected(),
    {
        self.mark_phase();
        self.sweep_phase();
    }

    /// Marks every object that a root refers to.
    pub fn mark_phase(&mut self)
        ensures
            final(self)@ == old(self)@.marked(),
    {
        let mut i: usize = 0;
        while i < self.objects.len()
            invariant
                i <= self.objects@.len(),
                self.objects@.len() == old(self).objects@.len(),
                self.roots == old(self).roots,
                self.next == old(self).next,
                forall|j: int|
                    0 <= j < i ==> (#[trigger] self.objects@[j])@ == old(self)@.marked().objects[j],
                forall|j: int|
                    i <= j < self.objects@.len() ==> #[trigger] self.objects@[j] == old(self).objects@[j],
            decreases self.objects@.len() - i,
        {
            if self.is_root(self.objects[i].handle) {
                self.mark_recursive(i);
            }
            i += 1;
        }
        assert(self@.objects =~= old(self)@.marked().objects);
    }

    /// Marks the object at `index`. An object refers to no other.
    fn mark_recursive(&mut self, index: usize)
        requires
            index < old(self).objects@.len(),
        ensures
            final(self).objects@.len() == old(self).objects@.len(),
            final(self).roots == old(self).roots,
            final(self).next == old(self).next,
            final(self).objects@[index as int]@ == (VMObjectView {
                marked: true,
                ..old(self).objects@[index as int]@
            }),
            forall|j: int|
                0 <= j < old(self).objects@.len() && j != index ==> #[trigger] final(self).objects@[j] == old(self).objects@[j],
    {
        if !self.objects[index].marked {
            self.objects[index].marked = true;
        }
    }

    /// Drops every object without a mark.
    pub fn sweep_phase(&mut self)
        ensures
            final(self)@ == old(self)@.swept(),
    {
        let mut kept: Vec<VMObject> = Vec::new();
        let ghost before = self@.objects;
        let ghost marked = |o: VMObjectView| o.marked;
        let mut i: usize = 0;
        assert(before.subrange(0, 0) =~= Seq::<VMObjectView>::empty());
        while i < self.objects.len()
            invariant
                i <= self.objects@.len(),
                *self == *old(self),
                before == self@.objects,
                marked == |o: VMObjectView| o.marked,
                kept@.map_values(|o: VMObject| o@) == before.subrange(0, i as int).filter(marked),
            decreases self.objects@.len() - i,
        {
            assert(before[i as int] == self.objects@[i as int]@);
            proof {
                let upto = before.subrange(0, i + 1);
                assert(upto.drop_last() =~= before.subrange(0, i as int));
                reveal(Seq::filter);
            }
            if self.objects[i].marked {
                let object = VMObject {
                    handle: self.objects[i].handle,
                    value: self.objects[i].value.duplicate(),
                    marked: true,
                };
                kept.push(object);
                assert(kept@.map_values(|o: VMObject| o@) =~= before.subrange(0, i + 1).filter(
                    marked,
                ));
            }
            i += 1;
        }
        assert(before.subrange(0, i as int) =~= before);
        self.objects = kept;
    }
}

} // verus!
