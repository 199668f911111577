//! A fixed-capacity ring of samples with a write cursor and a read cursor.

use vstd::prelude::*;
use crate::sample::Sample;

verus! {

/// What a ring holds: its slots, and the slot each cursor stands on.
pub struct BufferView<S> {
    pub contents: Seq<S>,
    pub input: int,
    pub output: int,
}

impl<S> BufferView<S> {
    /// Number of slots.
    pub open spec fn len(self) -> int {
        self.contents.len() as int
    }

    /// There is at least one slot and both cursors stand on a slot.
    pub open spec fn wf(self) -> bool {
        &&& 0 < self.len() <= i32::MAX
        &&& 0 <= self.input < self.len()
        &&& 0 <= self.output < self.len()
    }

    /// The sample under the read cursor.
    pub open spec fn read(self) -> S {
        self.contents[self.output]
    }

    /// The ring with `sample` stored under the write cursor.
    pub open spec fn write(self, sample: S) -> Self {
        BufferView { contents: self.contents.update(self.input, sample), ..self }
    }

    /// The ring with both cursors on slot `index`, counted around the ring.
    pub open spec fn set_pos(self, index: int) -> Self {
        BufferView { input: index % self.len(), output: index % self.len(), ..self }
    }

    /// The ring with both cursors one slot further.
    pub open spec fn increment(self) -> Self {
        BufferView {
            input: (self.input + 1) % self.len(),
            output: (self.output + 1) % self.len(),
            ..self
        }
    }

    /// The ring with only the read cursor one slot further.
    pub open spec fn increment_out(self) -> Self {
        BufferView { output: (self.output + 1) % self.len(), ..self }
    }

    /// The ring with only the read cursor on slot `index`, counted around the ring.
    pub open spec fn set_out(self, index: int) -> Self {
        BufferView { output: index % self.len(), ..self }
    }

    /// The ring with `sample` in every slot and the cursors where they were.
    pub open spec fn fill(self, sample: S) -> Self {
        BufferView { contents: Seq::new(self.contents.len(), |i: int| sample), ..self }
    }
}

impl<S: Sample> BufferView<S> {
    /// A ring of `size` silent slots with both cursors on slot 0.
    pub open spec fn silent(size: int) -> Self {
        BufferView {
            contents: Seq::new(size as nat, |i: int| crate::sample::silence::<S>()),
            input: 0,
            output: 0,
        }
    }
}

/// A ring buffer of samples. Its capacity is fixed when it is made.
pub struct Buffer<S: Sample> {
    contents: Vec<S>,
    input: usize,
    output: usize,
}

/// `value` counted around a ring of `len` slots.
pub fn wrap(value: i64, len: usize) -> (r: usize)
    requires
        0 < len <= i32::MAX,
    ensures
        r == (value as int) % (len as int),
        r < len,
{
    proof {
        vstd::arithmetic::div_mod::lemma_mod_bound(value as int, len as int);
    }
    match value.checked_rem_euclid(len as i64) {
        Some(m) => m as usize,
        None => 0,
    }
}

impl<S: Sample> Buffer<S> {
    /// The buffer as the contracts see it.
    pub closed spec fn view(&self) -> BufferView<S> {
        BufferView {
            contents: self.contents@,
            input: self.input as int,
            output: self.output as int,
        }
    }

    /// The invariant of every buffer: see [`BufferView::wf`].
    pub open spec fn wf(&self) -> bool {
        self@.wf()
    }

    /// A silent buffer of `size` slots with both cursors on slot 0.
    pub fn new(size: usize) -> (r: Self)
        requires
            0 < size <= i32::MAX,
        ensures
            r.wf(),
            r@ == BufferView::<S>::silent(size as int),
    {
        let silent = S::ratio(0, 1);
        let mut contents: Vec<S> = Vec::new();
        let mut i: usize = 0;
        while i < size
            invariant
                i <= size,
                contents@ == Seq::new(i as nat, |k: int| crate::sample::silence::<S>()),
                silent == crate::sample::silence::<S>(),
            decreases size - i,
        {
            contents.push(silent);
            i += 1;
        }
        Buffer { contents, input: 0, output: 0 }
    }

    /// Number of slots.
    pub fn len(&self) -> (r: usize)
        requires
            self.wf(),
        ensures
            r == self@.len(),
    {
        self.contents.len()
    }

    /// The slot that the write cursor stands on.
    pub fn input(&self) -> (r: usize)
        requires
            self.wf(),
        ensures
            r == self@.input,
    {
        self.input
    }

    /// The slot that the read cursor stands on.
    pub fn output(&self) -> (r: usize)
        requires
            self.wf(),
        ensures
            r == self@.output,
    {
        self.output
    }

    /// The sample under the read cursor.
    pub fn read(&self) -> (r: S)
        requires
            self.wf(),
        ensures
            r == self@.read(),
    {
        self.contents[self.output]
    }

    /// Stores `sample` under the write cursor.
    pub fn write(&mut self, sample: S)
        requires
            old(self).wf(),
        ensures
            final(self).wf(),
            final(self)@ == old(self)@.write(sample),
    {
        self.contents[self.input] = sample;
    }

    /// Puts both cursors on slot `index`, counted around the ring.
    pub fn set_pos(&mut self, index: i32)
        requires
            old(self).wf(),
        ensures
            final(self).wf(),
            final(self)@ == old(self)@.set_pos(index as int),
    {
        let at = wrap(index as i64, self.contents.len());
        self.input = at;
        self.output = at;
    }

    /// Puts only the read cursor on slot `index`, counted around the ring.
    pub fn set_out(&mut self, index: i64)
        requires
            old(self).wf(),
        ensures
            final(self).wf(),
            final(self)@ == old(self)@.set_out(index as int),
    {
        self.output = wrap(index, self.contents.len());
    }

    /// Moves both cursors one slot further.
    pub fn increment(&mut self)
        requires
            old(self).wf(),
        ensures
            final(self).wf(),
            final(self)@ == old(self)@.increment(),
    {
        self.output = wrap(self.output as i64 + 1, self.contents.len());
        self.input = wrap(self.input as i64 + 1, self.contents.len());
    }

    /// Moves only the read cursor one slot further.
    pub fn increment_out(&mut self)
        requires
            old(self).wf(),
        ensures
            final(self).wf(),
            final(self)@ == old(self)@.increment_out(),
    {
        self.output = wrap(self.output as i64 + 1, self.contents.len());
    }

    /// Silences every slot. The cursors stay.
    pub fn clear(&mut self)
        requires
            old(self).wf(),
        ensures
            final(self).wf(),
            final(self)@ == old(self)@.fill(crate::sample::silence::<S>()),
    {
        let silent = S::ratio(0, 1);
        let n = self.contents.len();
        let mut i: usize = 0;
        while i < n
            invariant
                i <= n,
                n == self.contents.len(),
                n == old(self).contents.len(),
                self.input == old(self).input,
                self.output == old(self).output,
                silent == crate::sample::silence::<S>(),
                forall|k: int| 0 <= k < i ==> self.contents@[k] == silent,
            decreases n - i,
        {
            self.contents[i] = silent;
            i += 1;
        }
        assert(self.contents@ =~= old(self)@.fill(silent).contents);
    }
}

} // verus!
