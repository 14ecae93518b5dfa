//! Messages of the LOVE manager's subscription stream and the queries the
//! dashboard makes of them.
//!
//! Floating-point fields of the wire format are carried as their IEEE 754
//! bit patterns (`f64::to_bits`); nothing in this crate interprets them.
use vstd::prelude::*;

verus! {

/// One message of the subscription stream.
#[derive(Debug)]
pub struct LovePayload {
    pub category: String,
    pub data: Vec<LoveData>,
    pub subscription: String,
    pub tracing: LoveTracing,
}

/// The data that one component (CSC) sent.
#[derive(Debug)]
pub struct LoveData {
    pub csc: String,
    pub salindex: i32,
    pub data: LoveDataType,
}

/// The streams that a message may carry.
#[derive(Debug)]
pub struct LoveDataType {
    pub script_stream: Option<ScriptStream>,
    pub state_stream: Option<StateStream>,
    pub available_scripts_stream: Option<AvailableScripts>,
}

/// The scripts of the queue, by stage.
#[derive(Debug)]
pub struct ScriptStream {
    pub current_scripts: Vec<ScriptInfo>,
    pub waiting_scripts: Vec<ScriptInfo>,
    pub finished_scripts: Vec<ScriptInfo>,
}

/// One script in the queue. Fields ending in `_bits` hold `f64` bit patterns.
#[derive(Debug)]
pub struct ScriptInfo {
    pub remote: Option<String>,
    pub setup: bool,
    pub index: u32,
    pub path: String,
    pub script_type: String,
    pub process_state: String,
    pub script_state: String,
    pub timestamp_configure_end_bits: u64,
    pub timestamp_configure_start_bits: u64,
    pub timestamp_process_end_bits: u64,
    pub timestamp_process_start_bits: u64,
    pub timestamp_run_start_bits: u64,
    pub expected_duration_bits: u64,
    pub last_checkpoint: String,
    pub description: String,
    pub classname: String,
    pub remotes: String,
    pub last_heartbeat_timestamp_bits: u64,
    pub lost_heartbeats: u32,
    pub pause_checkpoints: String,
    pub stop_checkpoints: String,
    pub log_level: u8,
}

/// Whether the queue is enabled and running.
#[derive(Debug, Clone, Copy, PartialEq, Eq, Structural)]
pub struct StateStream {
    pub enabled: bool,
    pub running: bool,
}

/// The scripts that can be added to the queue.
#[derive(Debug)]
pub struct AvailableScripts {
    pub available_scripts: Vec<Script>,
}

/// A script that can be added to the queue.
#[derive(Debug)]
pub struct Script {
    pub script_type: String,
    pub path: String,
    pub config_schema: String,
}

/// Timing of a message through the manager. Each field holds an `f64` bit pattern.
#[derive(Debug)]
pub struct LoveTracing {
    pub producer_snd_bits: u64,
    pub manager_rcv_from_producer_bits: u64,
    pub manager_snd_to_group_bits: u64,
    pub manager_rcv_from_group_bits: u64,
    pub manager_snd_to_client_bits: u64,
}

/// The model of a script stream: its three lists.
pub struct ScriptStreamView {
    pub current_scripts: Seq<ScriptInfo>,
    pub waiting_scripts: Seq<ScriptInfo>,
    pub finished_scripts: Seq<ScriptInfo>,
}

impl View for ScriptStream {
    type V = ScriptStreamView;

    open spec fn view(&self) -> ScriptStreamView {
        ScriptStreamView {
            current_scripts: self.current_scripts@,
            waiting_scripts: self.waiting_scripts@,
            finished_scripts: self.finished_scripts@,
        }
    }
}

impl View for AvailableScripts {
    type V = Seq<Script>;

    open spec fn view(&self) -> Seq<Script> {
        self.available_scripts@
    }
}

/// The model of an optional script stream.
pub open spec fn script_stream_view(o: Option<ScriptStream>) -> Option<ScriptStreamView> {
    match o {
        Some(s) => Some(s@),
        None => None,
    }
}

/// The model of an optional list of available scripts.
pub open spec fn available_scripts_view(o: Option<AvailableScripts>) -> Option<Seq<Script>> {
    match o {
        Some(a) => Some(a@),
        None => None,
    }
}

/// The scripts of `scripts` whose type is `kind`, in their order.
pub open spec fn scripts_of_type(scripts: Seq<Script>, kind: Seq<char>) -> Seq<Script>
    decreases scripts.len(),
{
    if scripts.len() == 0 {
        Seq::empty()
    } else {
        let rest = scripts_of_type(scripts.drop_last(), kind);
        if scripts.last().script_type@ == kind {
            rest.push(scripts.last())
        } else {
            rest
        }
    }
}

fn copy_string(s: &String) -> (r: String)
    ensures
        r == *s,
{
    s.clone()
}

impl Script {
    /// A copy of this script.
    pub fn copy(&self) -> (r: Script)
        ensures
            r == *self,
    {
        Script {
            script_type: copy_string(&self.script_type),
            path: copy_string(&self.path),
            config_schema: copy_string(&self.config_schema),
        }
    }
}

/// A copy of a list of scripts.
pub fn copy_scripts(v: &Vec<Script>) -> (r: Vec<Script>)
    ensures
        r@ == v@,
{
    let mut r: Vec<Script> = Vec::new();
    let mut i: usize = 0;
    while i < v.len()
        invariant
            i <= v.len(),
            r@ == v@.take(i as int),
        decreases v.len() - i,
    {
        r.push(v[i].copy());
        assert(v@.take(i as int + 1) =~= v@.take(i as int).push(v@[i as int]));
        i = i + 1;
    }
    assert(v@.take(v.len() as int) =~= v@);
    r
}

impl ScriptInfo {
    /// A copy of this script record.
    pub fn copy(&self) -> (r: ScriptInfo)
        ensures
            r == *self,
    {
        let remote = match &self.remote {
            Some(s) => Some(copy_string(s)),
            None => None,
        };
        ScriptInfo {
            remote,
            setup: self.setup,
            index: self.index,
            path: copy_string(&self.path),
            script_type: copy_string(&self.script_type),
            process_state: copy_string(&self.process_state),
            script_state: copy_string(&self.script_state),
            timestamp_configure_end_bits: self.timestamp_configure_end_bits,
            timestamp_configure_start_bits: self.timestamp_configure_start_bits,
            timestamp_process_end_bits: self.timestamp_process_end_bits,
            timestamp_process_start_bits: self.timestamp_process_start_bits,
            timestamp_run_start_bits: self.timestamp_run_start_bits,
            expected_duration_bits: self.expected_duration_bits,
            last_checkpoint: copy_string(&self.last_checkpoint),
            description: copy_string(&self.description),
            classname: copy_string(&self.classname),
            remotes: copy_string(&self.remotes),
            last_heartbeat_timestamp_bits: self.last_heartbeat_timestamp_bits,
            lost_heartbeats: self.lost_heartbeats,
            pause_checkpoints: copy_string(&self.pause_checkpoints),
            stop_checkpoints: copy_string(&self.stop_checkpoints),
            log_level: self.log_level,
        }
    }
}

/// A copy of a list of script records.
pub fn copy_script_infos(v: &Vec<ScriptInfo>) -> (r: Vec<ScriptInfo>)
    ensures
        r@ == v@,
{
    let mut r: Vec<ScriptInfo> = Vec::new();
    let mut i: usize = 0;
    while i < v.len()
        invariant
            i <= v.len(),
            r@ == v@.take(i as int),
        decreases v.len() - i,
    {
        r.push(v[i].copy());
        assert(v@.take(i as int + 1) =~= v@.take(i as int).push(v@[i as int]));
        i = i + 1;
    }
    assert(v@.take(v.len() as int) =~= v@);
    r
}

impl ScriptStream {
    /// A copy of this stream.
    pub fn copy(&self) -> (r: ScriptStream)
        ensures
            r@ == self@,
    {
        ScriptStream {
            current_scripts: copy_script_infos(&self.current_scripts),
            waiting_scripts: copy_script_infos(&self.waiting_scripts),
            finished_scripts: copy_script_infos(&self.finished_scripts),
        }
    }
}

impl LovePayload {
    /// The script stream of the first data entry, if the message has one.
    pub open spec fn script_stream_of(&self) -> Option<ScriptStreamView> {
        if self.data@.len() > 0 {
            script_stream_view(self.data@[0].data.script_stream)
        } else {
            None
        }
    }

    /// The queue state of the first data entry, if the message has one.
    pub open spec fn state_stream_of(&self) -> Option<StateStream> {
        if self.data@.len() > 0 {
            self.data@[0].data.state_stream
        } else {
            None
        }
    }

    /// The available scripts of the first data entry, if the message has them.
    pub open spec fn available_scripts_of(&self) -> Option<Seq<Script>> {
        if self.data@.len() > 0 {
            available_scripts_view(self.data@[0].data.available_scripts_stream)
        } else {
            None
        }
    }

    /// A copy of the script stream that the first data entry carries.
    pub fn get_script_stream(&self) -> (r: Option<ScriptStream>)
        ensures
            script_stream_view(r) == self.script_stream_of(),
    {
        if self.data.len() > 0 {
            match &self.data[0].data.script_stream {
                Some(s) => Some(s.copy()),
                None => None,
            }
        } else {
            None
        }
    }

    /// The queue state that the first data entry carries.
    pub fn get_state_stream(&self) -> (r: Option<StateStream>)
        ensures
            r == self.state_stream_of(),
    {
        if self.data.len() > 0 {
            match &self.data[0].data.state_stream {
                Some(s) => Some(*s),
                None => None,
            }
        } else {
            None
        }
    }

    /// A copy of the available scripts that the first data entry carries.
    pub fn get_available_scripts(&self) -> (r: Option<AvailableScripts>)
        ensures
            available_scripts_view(r) == self.available_scripts_of(),
    {
        if self.data.len() > 0 {
            match &self.data[0].data.available_scripts_stream {
                Some(a) => Some(AvailableScripts { available_scripts: copy_scripts(&a.available_scripts) }),
                None => None,
            }
        } else {
            None
        }
    }
}

impl AvailableScripts {
    fn scripts_with_type(&self, kind: &String) -> (r: Vec<Script>)
        ensures
            r@ == scripts_of_type(self@, kind@),
    {
        let v = &self.available_scripts;
        let mut r: Vec<Script> = Vec::new();
        let mut i: usize = 0;
        while i < v.len()
            invariant
                i <= v.len(),
                r@ == scripts_of_type(v@.take(i as int), kind@),
            decreases v.len() - i,
        {
            assert(v@.take(i as int + 1).drop_last() =~= v@.take(i as int));
            if v[i].script_type == *kind {
                r.push(v[i].copy());
            }
            i = i + 1;
        }
        assert(v@.take(v.len() as int) =~= v@);
        r
    }

    /// The scripts whose type is `standard`, in their order.
    pub fn get_standard_scripts(&self) -> (r: Vec<Script>)
        ensures
            r@ == scripts_of_type(self@, "standard"@),
    {
        let kind = "standard".to_owned();
        self.scripts_with_type(&kind)
    }

    /// The scripts whose type is `external`, in their order.
    pub fn get_external_scripts(&self) -> (r: Vec<Script>)
        ensures
            r@ == scripts_of_type(self@, "external"@),
    {
        let kind = "external".to_owned();
        self.scripts_with_type(&kind)
    }

    /// The number of available scripts, truncated to 16 bits.
    pub fn number_of_scripts(&self) -> (r: u16)
        ensures
            r as int == self@.len() % 0x10000,
    {
        let n: usize = self.available_scripts.len();
        assert((n as u16) as int == n % 0x10000) by (bit_vector);
        n as u16
    }
}

} // verus!
