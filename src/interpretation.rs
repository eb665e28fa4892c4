//! What the recorded events are: which is the main event, and which are the
//! scheduler-switch and memory-accounting tracepoints.
use vstd::prelude::*;

verus! {

broadcast use vstd::string::to_string_from_display_ensures_for_str;

/// How an event was sampled.
#[derive(Clone, Copy, Debug, PartialEq, Eq, Structural)]
pub enum SamplingPolicy {
    NoSampling,
    /// Samples per second.
    Frequency(u64),
    /// Events per sample.
    Period(u64),
}

/// What conversion reads of one event attribute.
#[derive(Clone, Debug)]
pub struct AttributeSummary {
    pub name: Option<String>,
    pub sampling_policy: SamplingPolicy,
    /// The event is the CPU clock or the task clock, counted in nanoseconds.
    pub is_clock: bool,
    /// Context-switch records were requested with this event.
    pub context_switch: bool,
}

#[derive(Clone, Debug)]
pub struct EventInterpretation {
    pub main_event_attr_index: usize,
    pub main_event_name: String,
    /// The main event's sampling interval in nanoseconds, when it is time based.
    pub sampling_is_time_based: Option<u64>,
    pub have_context_switches: bool,
    pub sched_switch_attr_index: Option<usize>,
    pub rss_stat_attr_index: Option<usize>,
    /// Each event's name, where it has one.
    pub event_names: Vec<Option<String>>,
}

pub open spec fn has_name(a: AttributeSummary, name: Seq<char>) -> bool {
    match a.name {
        Some(n) => n@ == name,
        None => false,
    }
}

/// `r` is the index of the first attribute named `name`, or none if none is.
pub open spec fn is_first_named(attrs: Seq<AttributeSummary>, name: Seq<char>, r: Option<usize>) -> bool {
    match r {
        Some(i) => i < attrs.len() && has_name(attrs[i as int], name)
            && forall|j: int| 0 <= j < i ==> !has_name(#[trigger] attrs[j], name),
        None => forall|j: int| 0 <= j < attrs.len() ==> !has_name(#[trigger] attrs[j], name),
    }
}

pub open spec fn spec_time_based(a: AttributeSummary) -> Option<u64> {
    match a.sampling_policy {
        SamplingPolicy::Frequency(f) => Some((1_000_000_000int / (f as int)) as u64),
        SamplingPolicy::Period(p) => if a.is_clock { Some(p) } else { None },
        SamplingPolicy::NoSampling => None,
    }
}

fn position_of_name(attrs: &Vec<AttributeSummary>, name: &String) -> (r: Option<usize>)
    ensures
        is_first_named(attrs@, name@, r),
{
    let mut i: usize = 0;
    while i < attrs.len()
        invariant
            0 <= i <= attrs@.len(),
            forall|j: int| 0 <= j < i ==> !has_name(#[trigger] attrs@[j], name@),
        decreases attrs@.len() - i,
    {
        let named = match &attrs[i].name {
            Some(n) => n.eq(name),
            None => false,
        };
        if named {
            return Some(i);
        }
        i = i + 1;
    }
    None
}

impl EventInterpretation {
    /// Reads the event attributes: the first is the main event, which must be
    /// sampled; its interval is time based for a frequency (one second over
    /// it) or for a period of a clock event.
    pub fn divine_from_attrs(attrs: &Vec<AttributeSummary>) -> (r: Self)
        requires
            attrs@.len() > 0,
            attrs@[0].sampling_policy != SamplingPolicy::NoSampling,
            attrs@[0].sampling_policy != SamplingPolicy::Frequency(0),
        ensures
            r.main_event_attr_index == 0,
            r.main_event_name@ == (match attrs@[0].name {
                Some(n) => n@,
                None => "<unnamed event>"@,
            }),
            r.sampling_is_time_based == spec_time_based(attrs@[0]),
            r.have_context_switches == attrs@[0].context_switch,
            is_first_named(attrs@, "sched:sched_switch"@, r.sched_switch_attr_index),
            is_first_named(attrs@, "kmem:rss_stat"@, r.rss_stat_attr_index),
            r.event_names@.len() == attrs@.len(),
            forall|i: int| 0 <= i < attrs@.len() ==> #[trigger] r.event_names@[i] == attrs@[i].name,
    {
        let first = &attrs[0];
        let main_event_name = match &first.name {
            Some(n) => n.clone(),
            None => "<unnamed event>".to_string(),
        };
        let sampling_is_time_based = match first.sampling_policy {
            SamplingPolicy::Frequency(freq) => Some(1_000_000_000 / freq),
            SamplingPolicy::Period(period) => if first.is_clock { Some(period) } else { None },
            SamplingPolicy::NoSampling => None,
        };
        let sched_switch = "sched:sched_switch".to_string();
        let rss_stat = "kmem:rss_stat".to_string();
        let sched_switch_attr_index = position_of_name(attrs, &sched_switch);
        let rss_stat_attr_index = position_of_name(attrs, &rss_stat);
        let mut event_names: Vec<Option<String>> = Vec::new();
        let mut i: usize = 0;
        while i < attrs.len()
            invariant
                0 <= i <= attrs@.len(),
                event_names@.len() == i,
                forall|j: int| 0 <= j < i ==> #[trigger] event_names@[j] == attrs@[j].name,
            decreases attrs@.len() - i,
        {
            let name = match &attrs[i].name {
                Some(n) => Some(n.clone()),
                None => None,
            };
            event_names.push(name);
            i = i + 1;
        }
        EventInterpretation {
            main_event_attr_index: 0,
            main_event_name,
            sampling_is_time_based,
            have_context_switches: first.context_switch,
            sched_switch_attr_index,
            rss_stat_attr_index,
            event_names,
        }
    }
}

} // verus!
