use vstd::prelude::*;

verus! {

/// The running instance a control reply speaks for: the endpoint of its proxy and the
/// identifier of this run.
#[derive(Clone, Debug, PartialEq, Eq)]
pub struct InstanceScope {
    pub proxy_endpoint: String,
    pub run_id: String,
}

/// The answer to switching recording: the instance it was switched on, what recording was
/// before and what it is now.
#[derive(Clone, Debug, PartialEq, Eq)]
pub struct RecordingUpdate {
    pub instance: InstanceScope,
    pub previous: bool,
    pub current: bool,
}

/// Whether the running instance records captures. It starts from the launch setting and
/// is switched at run time without touching that setting.
#[derive(Debug)]
pub struct RecordingSwitch {
    instance: InstanceScope,
    start_record_on_launch: bool,
    enabled: bool,
}

impl RecordingSwitch {
    pub closed spec fn is_enabled(&self) -> bool {
        self.enabled
    }

    /// The launch setting the switch started from.
    pub closed spec fn launch_setting(&self) -> bool {
        self.start_record_on_launch
    }

    pub closed spec fn instance_view(&self) -> (Seq<char>, Seq<char>) {
        (self.instance.proxy_endpoint@, self.instance.run_id@)
    }

    pub fn new(instance: InstanceScope, start_record_on_launch: bool) -> (r: Self)
        ensures
            r.is_enabled() == start_record_on_launch,
            r.launch_setting() == start_record_on_launch,
            r.instance_view() == (instance.proxy_endpoint@, instance.run_id@),
    {
        RecordingSwitch { instance, start_record_on_launch, enabled: start_record_on_launch }
    }

    pub fn is_recording(&self) -> (r: bool)
        ensures
            r == self.is_enabled(),
    {
        self.enabled
    }

    /// The launch setting, which switching never rewrites.
    pub fn start_record_on_launch(&self) -> (r: bool)
        ensures
            r == self.launch_setting(),
    {
        self.start_record_on_launch
    }

    /// Switches recording and reports, for this instance, the state before and after. The
    /// launch setting stays as it was.
    pub fn set_recording_enabled(&mut self, enabled: bool) -> (r: RecordingUpdate)
        ensures
            r.previous == old(self).is_enabled(),
            r.current == enabled,
            (r.instance.proxy_endpoint@, r.instance.run_id@) == old(self).instance_view(),
            final(self).is_enabled() == enabled,
            final(self).launch_setting() == old(self).launch_setting(),
            final(self).instance_view() == old(self).instance_view(),
    {
        let previous = self.enabled;
        self.enabled = enabled;
        let instance = InstanceScope {
            proxy_endpoint: self.instance.proxy_endpoint.clone(),
            run_id: self.instance.run_id.clone(),
        };
        RecordingUpdate { instance, previous, current: enabled }
    }
}

} // verus!
