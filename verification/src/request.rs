//! The request envelope: the type tag, the payload bytes, the context of the
//! region it is for, and its key ranges.

use vstd::prelude::*;
use crate::keys::KeyRange;

verus! {

/// The type tag of a plan.
pub const REQ_TYPE_DAG: i64 = 103;

/// The type tag of a request for statistics.
pub const REQ_TYPE_ANALYZE: i64 = 104;

/// The type tag of a request for a checksum.
pub const REQ_TYPE_CHECKSUM: i64 = 105;

/// The label of the low priority.
pub const STR_REQ_PRI_LOW: &'static str = "low";

/// The label of the normal priority.
pub const STR_REQ_PRI_NORMAL: &'static str = "normal";

/// The label of the high priority.
pub const STR_REQ_PRI_HIGH: &'static str = "high";

/// The priority of a request, which selects the pool that runs it.
#[derive(Clone, Copy, Debug, PartialEq, Eq, Structural)]
pub enum CommandPri {
    Normal,
    Low,
    High,
}

/// The isolation level that reads of a request see.
#[derive(Clone, Copy, Debug, PartialEq, Eq, Structural)]
pub enum IsolationLevel {
    /// Snapshot isolation.
    SI,
    /// Read committed.
    RC,
}

/// Where a request is to run and how it asks to be treated.
#[derive(Clone, Copy, Debug, PartialEq, Eq, Structural)]
pub struct Context {
    pub region_id: u64,
    pub region_epoch_conf_ver: u64,
    pub region_epoch_version: u64,
    pub peer_id: u64,
    pub priority: CommandPri,
    pub isolation_level: IsolationLevel,
    pub not_fill_cache: bool,
    pub handle_time: bool,
    pub scan_detail: bool,
}

/// A request as it arrives: `data` is the payload, encoded as `tp` says.
#[derive(Debug)]
pub struct Request {
    pub tp: i64,
    pub data: Vec<u8>,
    pub context: Context,
    pub ranges: Vec<KeyRange>,
}

/// The label of a priority.
pub open spec fn spec_req_pri_str(pri: CommandPri) -> Seq<char> {
    match pri {
        CommandPri::Low => STR_REQ_PRI_LOW@,
        CommandPri::Normal => STR_REQ_PRI_NORMAL@,
        CommandPri::High => STR_REQ_PRI_HIGH@,
    }
}

/// The label of a priority.
pub fn get_req_pri_str(pri: CommandPri) -> (s: &'static str)
    ensures
        s@ == spec_req_pri_str(pri),
{
    match pri {
        CommandPri::Low => STR_REQ_PRI_LOW,
        CommandPri::Normal => STR_REQ_PRI_NORMAL,
        CommandPri::High => STR_REQ_PRI_HIGH,
    }
}

impl Context {
    /// The context of region 0 with every option at its default.
    pub open spec fn spec_new() -> Context {
        Context {
            region_id: 0,
            region_epoch_conf_ver: 0,
            region_epoch_version: 0,
            peer_id: 0,
            priority: CommandPri::Normal,
            isolation_level: IsolationLevel::SI,
            not_fill_cache: false,
            handle_time: false,
            scan_detail: false,
        }
    }

    pub fn new() -> (ctx: Context)
        ensures
            ctx == Self::spec_new(),
    {
        Context {
            region_id: 0,
            region_epoch_conf_ver: 0,
            region_epoch_version: 0,
            peer_id: 0,
            priority: CommandPri::Normal,
            isolation_level: IsolationLevel::SI,
            not_fill_cache: false,
            handle_time: false,
            scan_detail: false,
        }
    }
}

impl Request {
    /// An empty request: tag 0, no payload, the default context, no ranges.
    pub fn new() -> (req: Request)
        ensures
            req.tp == 0,
            req.data@.len() == 0,
            req.context == Context::spec_new(),
            req.ranges@.len() == 0,
    {
        Request { tp: 0, data: Vec::new(), context: Context::new(), ranges: Vec::new() }
    }
}

} // verus!
