//! Comparison operands captured while tracing a run.
use vstd::prelude::*;

verus! {

/// The two operands of one comparison, tagged by their width.
#[derive(Debug)]
pub enum CmpValues {
    U8((u8, u8)),
    U16((u16, u16)),
    U32((u32, u32)),
    U64((u64, u64)),
    Bytes((Vec<u8>, Vec<u8>)),
}

/// The comparisons collected by the last tracing run, in order.
#[derive(Debug)]
pub struct CmpValuesMetadata {
    pub list: Vec<CmpValues>,
}

impl CmpValuesMetadata {
    /// An empty list of comparisons.
    pub fn new() -> (r: CmpValuesMetadata)
        ensures
            r.list@.len() == 0,
    {
        CmpValuesMetadata { list: Vec::new() }
    }
}

} // verus!
