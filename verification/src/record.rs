use vstd::prelude::*;

verus! {

/// One raw node record as the upstream reports it within one refresh cycle.
///
/// Several records may share a hostname in one cycle (a node agent was
/// destroyed and recreated under the same name). `creation_index` is the
/// upstream's monotonically increasing registration sequence number; older
/// data shapes omit it, and the caller then supplies 0.
pub struct NodeRecord {
    pub hostname: String,
    pub status: String,
    pub creation_index: u128,
}

/// The mathematical value of a `NodeRecord`.
pub ghost struct NodeRecordView {
    pub hostname: Seq<char>,
    pub status: Seq<char>,
    pub creation_index: u128,
}

impl View for NodeRecord {
    type V = NodeRecordView;

    open spec fn view(&self) -> NodeRecordView {
        NodeRecordView {
            hostname: self.hostname@,
            status: self.status@,
            creation_index: self.creation_index,
        }
    }
}

impl DeepView for NodeRecord {
    type V = NodeRecordView;

    open spec fn deep_view(&self) -> NodeRecordView {
        self.view()
    }
}

impl Clone for NodeRecord {
    fn clone(&self) -> (r: Self)
        ensures
            r@ == self@,
    {
        NodeRecord {
            hostname: self.hostname.clone(),
            status: self.status.clone(),
            creation_index: self.creation_index,
        }
    }
}

} // verus!
