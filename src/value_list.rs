use vstd::prelude::*;
use crate::value::ITMPortConvType;

verus! {

/// Largest number of values one packet can carry: a 4-byte payload of
/// 1-byte characters.
pub const MAX_MSG_PER_PCKT: usize = 4;

/// The values decoded from one packet, in payload order, held in a
/// fixed-capacity stack vector of at most `MAX_MSG_PER_PCKT` items.
#[verifier::external_body]
#[derive(Debug)]
pub struct ValueList {
    inner: heapless::Vec<ITMPortConvType, MAX_MSG_PER_PCKT>,
}

/// What pushing onto a full list hands back.
pub type PushResult = Result<(), ITMPortConvType>;

/// The values a `ValueList` holds, first to last.
pub uninterp spec fn value_list_items(v: ValueList) -> Seq<ITMPortConvType>;

impl ValueList {
    /// Relies on heapless::Vec::new: a new vector holds no items.
    #[verifier::external_body]
    pub(crate) fn new() -> (r: ValueList)
        ensures
            value_list_items(r) == Seq::<ITMPortConvType>::empty(),
    {
        ValueList { inner: heapless::Vec::new() }
    }

    /// Relies on heapless::Vec::push: below capacity the item is appended and
    /// `Ok` returned; at capacity the item is handed back and nothing changes.
    #[verifier::external_body]
    fn push_item(&mut self, item: ITMPortConvType) -> (r: PushResult)
        ensures
            r is Ok <==> value_list_items(*old(self)).len() < MAX_MSG_PER_PCKT,
            r is Ok ==> value_list_items(*final(self)) == value_list_items(*old(self)).push(item),
            r is Err ==> r == PushResult::Err(item),
            r is Err ==> value_list_items(*final(self)) == value_list_items(*old(self)),
    {
        self.inner.push(item)
    }

    /// Relies on heapless::Vec::as_slice: the slice holds exactly the items.
    #[verifier::external_body]
    fn items_slice(&self) -> (r: &[ITMPortConvType])
        ensures
            r@ == value_list_items(*self),
    {
        self.inner.as_slice()
    }

    /// Appends a value; the list must not be full.
    pub(crate) fn push(&mut self, item: ITMPortConvType)
        requires
            value_list_items(*old(self)).len() < MAX_MSG_PER_PCKT,
        ensures
            value_list_items(*final(self)) == value_list_items(*old(self)).push(item),
    {
        let _ = self.push_item(item);
    }

    /// Number of values held.
    pub fn len(&self) -> (r: usize)
        ensures
            r == value_list_items(*self).len(),
    {
        self.items_slice().len()
    }

    /// The value at position `i`, if there is one.
    pub fn get(&self, i: usize) -> (r: Option<ITMPortConvType>)
        ensures
            i < value_list_items(*self).len() ==> r == Some(value_list_items(*self)[i as int]),
            i >= value_list_items(*self).len() ==> r is None,
    {
        let s = self.items_slice();
        if i < s.len() {
            Some(s[i])
        } else {
            None
        }
    }

    /// The values, first to last, as a `Vec`.
    pub fn to_vec(&self) -> (r: Vec<ITMPortConvType>)
        ensures
            r@ == value_list_items(*self),
    {
        let s = self.items_slice();
        let mut out: Vec<ITMPortConvType> = Vec::new();
        let mut i: usize = 0;
        while i < s.len()
            invariant
                i <= s@.len(),
                out@ == s@.take(i as int),
            decreases s@.len() - i,
        {
            out.push(s[i]);
            i = i + 1;
            assert(out@ =~= s@.take(i as int));
        }
        assert(s@.take(s@.len() as int) =~= s@);
        out
    }
}

} // verus!
