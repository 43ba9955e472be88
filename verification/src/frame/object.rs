//! A frame that a compositor hands out.

use vstd::prelude::*;

verus! {

/// A frame in memory objects. Descriptors of objects are plain numbers here; whoever opened
/// them closes them.
#[derive(Debug)]
pub struct Object {
    pub width: u32,
    pub height: u32,
    pub num_objects: u32,
    pub format: u32,
    /// The modifier, offset and stride of the only plane, where they are known.
    pub layout: Option<(u64, u32, u32)>,
    pub fds: Vec<Option<i32>>,
    pub sizes: Vec<u32>,
}

impl Object {
    /// There is room for as many objects as the frame has.
    pub open spec fn wf(self) -> bool {
        self.fds@.len() == self.num_objects && self.sizes@.len() == self.num_objects
    }

    /// A frame none of whose objects is known yet.
    pub fn new(width: u32, height: u32, num_objects: u32, format: u32) -> (r: Object)
        ensures
            r.wf(),
            r.width == width,
            r.height == height,
            r.num_objects == num_objects,
            r.format == format,
            r.layout is None,
            forall|i: int| 0 <= i < num_objects ==> (#[trigger] r.fds@[i]) is None,
            forall|i: int| 0 <= i < num_objects ==> #[trigger] r.sizes@[i] == 0,
    {
        let mut fds: Vec<Option<i32>> = Vec::new();
        let mut sizes: Vec<u32> = Vec::new();
        let mut i: u32 = 0;
        while i < num_objects
            invariant
                i <= num_objects,
                fds@.len() == i,
                sizes@.len() == i,
                forall|j: int| 0 <= j < i ==> (#[trigger] fds@[j]) is None,
                forall|j: int| 0 <= j < i ==> #[trigger] sizes@[j] == 0,
            decreases num_objects - i,
        {
            fds.push(None);
            sizes.push(0);
            i = i + 1;
        }
        Object { width, height, num_objects, format, layout: None, fds, sizes }
    }

    /// Sets an object of the frame.
    pub fn set_object(&mut self, index: u32, fd: i32, size: u32)
        requires
            old(self).wf(),
            index < old(self).num_objects,
        ensures
            final(self).wf(),
            final(self).fds@ == old(self).fds@.update(index as int, Some(fd)),
            final(self).sizes@ == old(self).sizes@.update(index as int, size),
            final(self).width == old(self).width,
            final(self).height == old(self).height,
            final(self).num_objects == old(self).num_objects,
            final(self).format == old(self).format,
            final(self).layout == old(self).layout,
    {
        self.fds.set(index as usize, Some(fd));
        self.sizes.set(index as usize, size);
    }

    /// The descriptor of an object that was set.
    pub fn fd(&self, index: usize) -> (r: i32)
        requires
            index < self.fds@.len(),
            self.fds@[index as int] is Some,
        ensures
            self.fds@[index as int] == Some(r),
    {
        match self.fds[index] {
            Some(fd) => fd,
            None => -1,
        }
    }
}

} // verus!
