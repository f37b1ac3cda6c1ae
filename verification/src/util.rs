//! Small things of use to the rest.

use vstd::prelude::*;
use std::rc::Rc;
use crate::value::{Value, ValueView, share, views};

verus! {

/// A hasher for keys that are numbers of 32 bits: the hash of a key is the
/// key. This is no cryptographic hash.
pub struct IdentityHash {
    pub state: u32,
}

/// The state after the bytes `bytes` are written: each byte shifts the state
/// by eight bits and takes the lowest eight.
pub open spec fn written(state: u32, bytes: Seq<u8>) -> u32
    decreases bytes.len(),
{
    if bytes.len() == 0 {
        state
    } else {
        ((written(state, bytes.drop_last()) as int % 0x100_0000) * 0x100 + bytes.last()) as u32
    }
}

impl IdentityHash {
    /// A hasher that has seen nothing.
    pub fn new() -> (r: IdentityHash)
        ensures
            r.state == 0,
    {
        IdentityHash { state: 0 }
    }

    /// The hash: the state.
    pub fn finish(&self) -> (r: u64)
        ensures
            r == self.state,
    {
        self.state as u64
    }

    /// Writes bytes, the most significant first.
    pub fn write(&mut self, bytes: &Vec<u8>)
        ensures
            final(self).state == written(old(self).state, bytes@),
    {
        let mut i: usize = 0;
        while i < bytes.len()
            invariant
                i <= bytes.len(),
                self.state == written(old(self).state, bytes@.take(i as int)),
            decreases bytes.len() - i,
        {
            assert(bytes@.take(i + 1).drop_last() == bytes@.take(i as int));
            assert(bytes@.take(i + 1).last() == bytes@[i as int]);
            self.state = (self.state % 0x100_0000) * 0x100 + bytes[i] as u32;
            i += 1;
        }
        assert(bytes@.take(bytes@.len() as int) == bytes@);
    }

    /// Writes a key: it becomes the state.
    pub fn write_u32(&mut self, v: u32)
        ensures
            final(self).state == v,
    {
        self.state = v;
    }
}

/// A part of a list that shares the list: the items from `start` on, `len`
/// of them.
#[derive(Debug)]
pub struct RcSlice {
    pub data: Rc<Vec<Value>>,
    pub start: usize,
    pub len: usize,
}

impl View for RcSlice {
    type V = Seq<ValueView>;

    open spec fn view(&self) -> Seq<ValueView> {
        views(self.data@).subrange(self.start as int, self.start + self.len)
    }
}

impl RcSlice {
    /// The part lies inside the list.
    pub open spec fn wf(&self) -> bool {
        self.start + self.len <= self.data@.len()
    }

    /// The part of nothing.
    pub fn empty() -> (r: RcSlice)
        ensures
            r.wf(),
            r@ == Seq::<ValueView>::empty(),
    {
        let r = RcSlice::new(Vec::new());
        assert(r@ =~= Seq::<ValueView>::empty());
        r
    }

    /// The whole of the list `v`.
    pub fn new(v: Vec<Value>) -> (r: RcSlice)
        ensures
            r.wf(),
            r@ == views(v@),
            r.start == 0,
            r.len == v@.len(),
    {
        let len = v.len();
        let r = RcSlice { data: Rc::new(v), start: 0, len: len };
        assert(r@ =~= views(v@));
        r
    }

    /// The items of the list from the second on, as many as this part has
    /// less one.
    pub fn tail(&self) -> (r: RcSlice)
        requires
            self.wf(),
            self.len >= 1,
        ensures
            r.wf(),
            r.data == self.data,
            r.start == 1,
            r.len == self.len - 1,
    {
        self.slice(1, self.len)
    }

    /// The items of the list from the first on, as many as this part has
    /// less one.
    pub fn init(&self) -> (r: RcSlice)
        requires
            self.wf(),
            self.len >= 1,
        ensures
            r.wf(),
            r.data == self.data,
            r.start == 0,
            r.len == self.len - 1,
    {
        self.slice(0, self.len - 1)
    }

    /// The number of items.
    pub fn len(&self) -> (r: usize)
        ensures
            r == self.len,
    {
        self.len
    }

    /// Whether the part holds no item.
    pub fn is_empty(&self) -> (r: bool)
        ensures
            r == (self.len == 0),
    {
        self.len == 0
    }

    /// The items of the list from the index `from` up to the index `to`.
    pub fn slice(&self, from: usize, to: usize) -> (r: RcSlice)
        requires
            from <= to <= self.data@.len(),
        ensures
            r.wf(),
            r.data == self.data,
            r.start == from,
            r.len == to - from,
            r@ == views(self.data@).subrange(from as int, to as int),
    {
        RcSlice { data: share(&self.data), start: from, len: to - from }
    }

    /// The items of the part.
    pub fn get_slice(&self) -> (r: Vec<Value>)
        requires
            self.wf(),
        ensures
            views(r@) == self@,
    {
        let mut out: Vec<Value> = Vec::new();
        let total = self.data.len();
        let mut i: usize = 0;
        while i < self.len
            invariant
                i <= self.len,
                self.wf(),
                total == self.data@.len(),
                out@ == self.data@.subrange(self.start as int, self.start + i),
            decreases self.len - i,
        {
            out.push(self.data[self.start + i].clone());
            i += 1;
        }
        assert(views(out@) =~= self@);
        out
    }

    /// The whole of the list with `v` after it.
    pub fn add(&self, v: Value) -> (r: RcSlice)
        ensures
            r.wf(),
            r@ == views(self.data@).push(v@),
    {
        let mut items: Vec<Value> = Vec::new();
        items.push(v);
        self.add_all(items)
    }

    /// The whole of the list with the items `i` after it.
    pub fn add_all(&self, i: Vec<Value>) -> (r: RcSlice)
        ensures
            r.wf(),
            r@ == views(self.data@) + views(i@),
    {
        let mut data: Vec<Value> = Vec::new();
        let mut k: usize = 0;
        while k < self.data.len()
            invariant
                k <= self.data@.len(),
                data@ == self.data@.take(k as int),
            decreases self.data@.len() - k,
        {
            data.push(self.data[k].clone());
            assert(self.data@.take(k + 1) == self.data@.take(k as int).push(self.data@[k as int]));
            k += 1;
        }
        assert(self.data@.take(self.data@.len() as int) == self.data@);
        let mut j: usize = 0;
        while j < i.len()
            invariant
                j <= i@.len(),
                data@ == self.data@ + i@.take(j as int),
            decreases i@.len() - j,
        {
            data.push(i[j].clone());
            assert(i@.take(j + 1) == i@.take(j as int).push(i@[j as int]));
            j += 1;
        }
        assert(i@.take(i@.len() as int) == i@);
        assert(views(data@) =~= views(self.data@) + views(i@));
        RcSlice::new(data)
    }
}

} // verus!
