//! The jobs of a queue.

use vstd::prelude::*;

use crate::json::Json;
use crate::table::Dict;

verus! {

/// One event of a job.
pub struct ClientEventData {
    pub name: String,
    pub channel: String,
    pub event: Option<String>,
    pub data: Option<Dict<Json>>,
    pub socket_id: Option<String>,
    pub user_id: Option<String>,
    pub time_ms: Option<i64>,
}

impl Default for ClientEventData {
    fn default() -> (r: Self)
        ensures
            r.name@ == ""@,
            r.channel@ == ""@,
            r.event is None,
            r.data is None,
            r.socket_id is None,
            r.user_id is None,
            r.time_ms is None,
    {
        proof {
            reveal_strlit("");
        }
        ClientEventData {
            name: String::new(),
            channel: String::new(),
            event: None,
            data: None,
            socket_id: None,
            user_id: None,
            time_ms: None,
        }
    }
}

/// A job: events of one application, and the signature that goes with them.
pub struct JobData {
    pub app_key: String,
    pub app_id: String,
    pub payload: JobPayload,
    pub original_pusher_signature: String,
}

/// The events of a job and when they were put together.
pub struct JobPayload {
    pub time_ms: i64,
    pub events: Vec<ClientEventData>,
}

impl Default for JobData {
    fn default() -> (r: Self)
        ensures
            r.app_key@ == ""@,
            r.app_id@ == ""@,
            r.payload.time_ms == 0,
            r.payload.events@.len() == 0,
            r.original_pusher_signature@ == ""@,
    {
        proof {
            reveal_strlit("");
        }
        JobData {
            app_key: String::new(),
            app_id: String::new(),
            payload: JobPayload { time_ms: 0, events: Vec::new() },
            original_pusher_signature: String::new(),
        }
    }
}

/// A job as a worker gets it.
pub struct WebhookJob(pub JobData);

/// A queue of jobs.
pub trait Queue {
    /// Adds a job.
    fn add_to_queue(&mut self, job_data: JobData);

    /// Works on a job.
    fn process_queue(&mut self, job_data: JobData);

    /// Gives the queue up.
    fn disconnect(&mut self);
}

} // verus!
