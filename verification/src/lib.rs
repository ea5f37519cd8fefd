//! Fetch streams: the decisions behind reading the records of a shard from its log, batch by batch,
//! and behind following such a stream from another node despite the failure of ingesters.

pub mod buffer;
pub mod data_laws;
pub mod delivery;
pub mod end_to_end;
pub mod fault_tolerant;
pub mod fault_tolerant_run;
pub mod fetch_task;
pub mod fetch_task_laws;
pub mod fetch_task_run;
pub mod ingester_selection;
pub mod message;
pub mod mrecord;
pub mod multi_fetch;
pub mod position;
pub mod queue_id;
pub mod retrying;
pub mod retrying_run;
pub mod stream_laws;
pub mod subscription_laws;
