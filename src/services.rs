//! The service activation checker: classifies what the service manager said
//! of each configured service.
use vstd::prelude::*;
use crate::status::{strings_view, text_view};
use crate::text::{trim, trimmed};

verus! {

/// What the service manager said of one configured service: its output, or
/// `None` where it could not be asked.
pub struct ServiceProbe {
    pub name: String,
    pub output: Option<String>,
}

/// The word by which the service manager reports an active service.
pub open spec fn active_word() -> Seq<char> {
    seq!['a', 'c', 't', 'i', 'v', 'e']
}

/// An output that reports the service active: exactly `active` once
/// surrounding white space is removed.
pub open spec fn reports_active(output: Option<Seq<char>>) -> bool {
    match output {
        Some(t) => trimmed(t) == active_word(),
        None => false,
    }
}

/// Whether the service manager's output reports the service active; any
/// other output is inactivity, not an error.
pub fn is_active_output(output: &str) -> (r: bool)
    ensures
        r == (trimmed(output@) == active_word()),
{
    let t = trim(output).to_owned();
    let word = "active".to_owned();
    proof {
        reveal_strlit("active");
        assert(word@ =~= active_word());
    }
    t == word
}

/// The names of the probed services reported active, in the order probed.
pub open spec fn active_names(probes: Seq<ServiceProbe>) -> Seq<Seq<char>>
    decreases probes.len(),
{
    if probes.len() == 0 {
        Seq::empty()
    } else {
        let rest = active_names(probes.drop_last());
        if reports_active(text_view(probes.last().output)) {
            rest.push(probes.last().name@)
        } else {
            rest
        }
    }
}

/// The services that the service manager reported active, in configuration
/// order; a service probed twice is judged on each probe.
pub fn check_services(probes: &Vec<ServiceProbe>) -> (r: Vec<String>)
    ensures
        strings_view(r@) == active_names(probes@),
{
    let mut out: Vec<String> = Vec::new();
    let mut i: usize = 0;
    while i < probes.len()
        invariant
            i <= probes@.len(),
            strings_view(out@) == active_names(probes@.take(i as int)),
        decreases probes.len() - i,
    {
        assert(probes@.take(i + 1).drop_last() =~= probes@.take(i as int));
        assert(probes@.take(i + 1).last() == probes@[i as int]);
        let active = match &probes[i].output {
            Some(t) => is_active_output(t.as_str()),
            None => false,
        };
        if active {
            let ghost before = out@;
            out.push(probes[i].name.clone());
            assert(strings_view(out@) =~= strings_view(before).push(probes@[i as int].name@));
        }
        i = i + 1;
    }
    assert(probes@.take(i as int) =~= probes@);
    out
}

/// The answer to a question about one service: whether it is active, and
/// the sentence that says so.
pub struct ServiceReport {
    pub active: bool,
    pub body: String,
}

/// The sentence that reports on a service.
pub open spec fn report_text(name: Seq<char>, active: bool) -> Seq<char> {
    "Service '"@ + name + if active {
        "' is active"@
    } else {
        "' is not active"@
    }
}

/// The report on the service `name`.
pub fn service_report(name: &str, active: bool) -> (r: ServiceReport)
    ensures
        r.active == active,
        r.body@ == report_text(name@, active),
{
    let head = "Service '".to_owned().concat(name);
    let body = if active {
        head.concat("' is active")
    } else {
        head.concat("' is not active")
    };
    ServiceReport { active, body }
}

} // verus!
