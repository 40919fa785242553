//! The status aggregator: assembles the readings of every metric source into
//! one snapshot in which each field is populated, a failed source giving way
//! to its sentinel.
use vstd::prelude::*;
use crate::errors::SystemError;

verus! {

/// One container as the runtime reports it.
pub struct ContainerStatus {
    pub image: String,
    pub state: String,
}

/// One network interface address of the host.
pub struct InterfaceAddress {
    pub is_loopback: bool,
    /// The IPv4 address, when the interface has one.
    pub ipv4: Option<String>,
}

/// What every metric source reported for one request.
pub struct SourceReadings {
    pub hostname: Option<String>,
    pub system_version: String,
    pub kernel_version: String,
    pub uptime: Result<String, SystemError>,
    /// Used and total memory, in bytes.
    pub memory: Result<(u64, u64), SystemError>,
    /// Available and total disk space, in bytes.
    pub disk: Result<(u64, u64), SystemError>,
    /// Received and sent network bytes.
    pub network: Result<(u64, u64), SystemError>,
    pub temperature: Result<String, SystemError>,
    pub containers: Result<Vec<ContainerStatus>, SystemError>,
    /// The configured services, in configuration order.
    pub services: Vec<String>,
    /// The configured services that the service manager reported active.
    pub active_services: Vec<String>,
    pub local_ip: Option<String>,
    pub public_ip: Option<String>,
    pub current_year: u32,
}

/// One snapshot of the host's condition.
pub struct StatusTemplate {
    pub hostname: String,
    pub system_version: String,
    pub kernel_info: String,
    pub uptime: String,
    pub memory_used: u64,
    pub memory_total: u64,
    pub disk_available: u64,
    pub disk_total: u64,
    pub temperature: String,
    pub network_in: u64,
    pub network_out: u64,
    pub containers: Vec<ContainerStatus>,
    /// Each configured service with whether it is active, in configuration
    /// order.
    pub services_status: Vec<(String, bool)>,
    pub current_year: u32,
    pub local_ip: String,
    pub public_ip: String,
}

/// The readings as values.
pub struct ReadingsView {
    pub hostname: Option<Seq<char>>,
    pub system_version: Seq<char>,
    pub kernel_version: Seq<char>,
    pub uptime: Result<Seq<char>, SystemError>,
    pub memory: Result<(u64, u64), SystemError>,
    pub disk: Result<(u64, u64), SystemError>,
    pub network: Result<(u64, u64), SystemError>,
    pub temperature: Result<Seq<char>, SystemError>,
    pub containers: Result<Seq<(Seq<char>, Seq<char>)>, SystemError>,
    pub services: Seq<Seq<char>>,
    pub active_services: Seq<Seq<char>>,
    pub local_ip: Option<Seq<char>>,
    pub public_ip: Option<Seq<char>>,
    pub current_year: u32,
}

/// The snapshot as values.
pub struct SnapshotView {
    pub hostname: Seq<char>,
    pub system_version: Seq<char>,
    pub kernel_info: Seq<char>,
    pub uptime: Seq<char>,
    pub memory_used: u64,
    pub memory_total: u64,
    pub disk_available: u64,
    pub disk_total: u64,
    pub temperature: Seq<char>,
    pub network_in: u64,
    pub network_out: u64,
    pub containers: Seq<(Seq<char>, Seq<char>)>,
    pub services_status: Seq<(Seq<char>, bool)>,
    pub current_year: u32,
    pub local_ip: Seq<char>,
    pub public_ip: Seq<char>,
}

pub open spec fn text_view(s: Option<String>) -> Option<Seq<char>> {
    match s {
        Some(t) => Some(t@),
        None => None,
    }
}

pub open spec fn text_result_view(s: Result<String, SystemError>) -> Result<Seq<char>, SystemError> {
    match s {
        Ok(t) => Ok(t@),
        Err(e) => Err(e),
    }
}

pub open spec fn container_view(c: ContainerStatus) -> (Seq<char>, Seq<char>) {
    (c.image@, c.state@)
}

pub open spec fn containers_view(v: Seq<ContainerStatus>) -> Seq<(Seq<char>, Seq<char>)> {
    v.map_values(|c: ContainerStatus| container_view(c))
}

pub open spec fn strings_view(v: Seq<String>) -> Seq<Seq<char>> {
    v.map_values(|s: String| s@)
}

pub open spec fn statuses_view(v: Seq<(String, bool)>) -> Seq<(Seq<char>, bool)> {
    v.map_values(|p: (String, bool)| (p.0@, p.1))
}

impl View for SourceReadings {
    type V = ReadingsView;

    open spec fn view(&self) -> ReadingsView {
        ReadingsView {
            hostname: text_view(self.hostname),
            system_version: self.system_version@,
            kernel_version: self.kernel_version@,
            uptime: text_result_view(self.uptime),
            memory: self.memory,
            disk: self.disk,
            network: self.network,
            temperature: text_result_view(self.temperature),
            containers: match self.containers {
                Ok(v) => Ok(containers_view(v@)),
                Err(e) => Err(e),
            },
            services: strings_view(self.services@),
            active_services: strings_view(self.active_services@),
            local_ip: text_view(self.local_ip),
            public_ip: text_view(self.public_ip),
            current_year: self.current_year,
        }
    }
}

impl View for StatusTemplate {
    type V = SnapshotView;

    open spec fn view(&self) -> SnapshotView {
        SnapshotView {
            hostname: self.hostname@,
            system_version: self.system_version@,
            kernel_info: self.kernel_info@,
            uptime: self.uptime@,
            memory_used: self.memory_used,
            memory_total: self.memory_total,
            disk_available: self.disk_available,
            disk_total: self.disk_total,
            temperature: self.temperature@,
            network_in: self.network_in,
            network_out: self.network_out,
            containers: containers_view(self.containers@),
            services_status: statuses_view(self.services_status@),
            current_year: self.current_year,
            local_ip: self.local_ip@,
            public_ip: self.public_ip@,
        }
    }
}

/// The sentinel of an unknown hostname, uptime or address.
pub open spec fn unknown_text() -> Seq<char> {
    seq!['U', 'n', 'k', 'n', 'o', 'w', 'n']
}

/// The sentinel of an unknown operating system.
pub open spec fn unknown_system_text() -> Seq<char> {
    unknown_text() + seq![' ', 'S', 'y', 's', 't', 'e', 'm']
}

/// The sentinel of an unknown kernel.
pub open spec fn unknown_kernel_text() -> Seq<char> {
    unknown_text() + seq![' ', 'K', 'e', 'r', 'n', 'e', 'l']
}

/// The sentinel of an unreadable temperature.
pub open spec fn no_temperature_text() -> Seq<char> {
    seq!['U', 'n', 'a', 'v', 'a', 'i', 'l', 'a', 'b', 'l', 'e']
}

/// A text reading, or `fallback` where it is missing or empty.
pub open spec fn text_or(s: Option<Seq<char>>, fallback: Seq<char>) -> Seq<char> {
    match s {
        Some(t) => if t.len() > 0 {
            t
        } else {
            fallback
        },
        None => fallback,
    }
}

/// A text reading of a fallible source, or `fallback` where it failed or is
/// empty.
pub open spec fn text_result_or(s: Result<Seq<char>, SystemError>, fallback: Seq<char>) -> Seq<char> {
    match s {
        Ok(t) => text_or(Some(t), fallback),
        Err(_) => fallback,
    }
}

/// A pair of byte counts, or zeros where the source failed.
pub open spec fn pair_or_zero(p: Result<(u64, u64), SystemError>) -> (u64, u64) {
    match p {
        Ok(v) => v,
        Err(_) => (0, 0),
    }
}

/// Each configured service with whether it is among the active ones.
pub open spec fn statuses_of(services: Seq<Seq<char>>, active: Seq<Seq<char>>) -> Seq<(Seq<char>, bool)> {
    services.map_values(|s: Seq<char>| (s, active.contains(s)))
}

/// The snapshot that the readings give.
pub open spec fn snapshot_of(r: ReadingsView) -> SnapshotView {
    SnapshotView {
        hostname: text_or(r.hostname, unknown_text()),
        system_version: text_or(Some(r.system_version), unknown_system_text()),
        kernel_info: text_or(Some(r.kernel_version), unknown_kernel_text()),
        uptime: text_result_or(r.uptime, unknown_text()),
        memory_used: pair_or_zero(r.memory).0,
        memory_total: pair_or_zero(r.memory).1,
        disk_available: pair_or_zero(r.disk).0,
        disk_total: pair_or_zero(r.disk).1,
        temperature: text_result_or(r.temperature, no_temperature_text()),
        network_in: pair_or_zero(r.network).0,
        network_out: pair_or_zero(r.network).1,
        containers: match r.containers {
            Ok(v) => v,
            Err(_) => Seq::empty(),
        },
        services_status: statuses_of(r.services, r.active_services),
        current_year: r.current_year,
        local_ip: text_or(r.local_ip, unknown_text()),
        public_ip: text_or(r.public_ip, unknown_text()),
    }
}

/// Every text field of the snapshot holds something.
pub open spec fn is_complete(s: SnapshotView) -> bool {
    &&& s.hostname.len() > 0
    &&& s.system_version.len() > 0
    &&& s.kernel_info.len() > 0
    &&& s.uptime.len() > 0
    &&& s.temperature.len() > 0
    &&& s.local_ip.len() > 0
    &&& s.public_ip.len() > 0
}

fn text_or_exec(s: Option<String>, fallback: String) -> (r: String)
    ensures
        r@ == text_or(text_view(s), fallback@),
{
    match s {
        Some(t) => if !t.as_str().is_empty() {
            t
        } else {
            fallback
        },
        None => fallback,
    }
}

fn literal_text(lit: &str, Ghost(expected): Ghost<Seq<char>>) -> (r: String)
    requires
        lit@ == expected,
    ensures
        r@ == expected,
{
    lit.to_owned()
}

fn text_result_or_exec(s: Result<String, SystemError>, fallback: String) -> (r: String)
    ensures
        r@ == text_result_or(text_result_view(s), fallback@),
{
    match s {
        Ok(t) => text_or_exec(Some(t), fallback),
        Err(_) => fallback,
    }
}

fn pair_or_zero_exec(p: Result<(u64, u64), SystemError>) -> (r: (u64, u64))
    ensures
        r == pair_or_zero(p),
{
    match p {
        Ok(v) => v,
        Err(_) => (0, 0),
    }
}

/// Whether `s` is one of `v`.
pub fn contains_text(v: &Vec<String>, s: &String) -> (r: bool)
    ensures
        r == strings_view(v@).contains(s@),
{
    let mut i: usize = 0;
    while i < v.len()
        invariant
            i <= v@.len(),
            forall|j: int| 0 <= j < i ==> (#[trigger] v@[j])@ != s@,
        decreases v.len() - i,
    {
        if v[i] == *s {
            assert(strings_view(v@)[i as int] == s@);
            return true;
        }
        i = i + 1;
    }
    proof {
        if strings_view(v@).contains(s@) {
            let j = choose|j: int| 0 <= j < strings_view(v@).len() && strings_view(v@)[j] == s@;
            assert(v@[j]@ == s@);
        }
    }
    false
}

/// Each configured service paired with whether it is among the active ones,
/// in configuration order; a service listed twice appears twice.
pub fn service_statuses(services: &Vec<String>, active: &Vec<String>) -> (r: Vec<(String, bool)>)
    ensures
        statuses_view(r@) == statuses_of(strings_view(services@), strings_view(active@)),
{
    let mut out: Vec<(String, bool)> = Vec::new();
    let mut i: usize = 0;
    while i < services.len()
        invariant
            i <= services@.len(),
            statuses_view(out@) == statuses_of(
                strings_view(services@).take(i as int),
                strings_view(active@),
            ),
        decreases services.len() - i,
    {
        let name = services[i].clone();
        let on = contains_text(active, &services[i]);
        let ghost before = out@;
        out.push((name, on));
        proof {
            let sa = strings_view(active@);
            let a = statuses_view(out@);
            let b = statuses_of(strings_view(services@).take(i + 1), sa);
            let a0 = statuses_view(before);
            let b0 = statuses_of(strings_view(services@).take(i as int), sa);
            assert(out@ == before.push((name, on)));
            assert(strings_view(services@).len() == services@.len());
            assert(a0.len() == before.len() && b0.len() == i);
            assert(a.len() == b.len());
            assert forall|k: int| 0 <= k < a.len() implies a[k] == b[k] by {
                if k < i {
                    assert(out@[k] == before[k]);
                    assert(a[k] == a0[k]);
                    assert(strings_view(services@).take(i + 1)[k] == strings_view(services@).take(
                        i as int,
                    )[k]);
                    assert(b[k] == b0[k]);
                } else {
                    assert(out@[k] == (name, on));
                    assert(strings_view(services@).take(i + 1)[k] == services@[k]@);
                }
            }
            assert(a =~= b);
        }
        i = i + 1;
    }
    assert(strings_view(services@).take(i as int) =~= strings_view(services@));
    out
}

impl StatusTemplate {
    /// The snapshot of one request: each reading as reported, or its
    /// sentinel where the source failed or gave nothing. No failure stops
    /// the assembly, and every text field comes out non-empty.
    pub fn assemble(readings: SourceReadings) -> (r: StatusTemplate)
        ensures
            r@ == snapshot_of(readings@),
            is_complete(r@),
    {
        let ghost input = readings@;
        proof {
            reveal_strlit("Unknown");
            reveal_strlit("Unknown System");
            reveal_strlit("Unknown Kernel");
            reveal_strlit("Unavailable");
            assert("Unknown"@ =~= unknown_text());
            assert("Unknown System"@ =~= unknown_system_text());
            assert("Unknown Kernel"@ =~= unknown_kernel_text());
            assert("Unavailable"@ =~= no_temperature_text());
        }
        let services_status = service_statuses(&readings.services, &readings.active_services);
        let SourceReadings {
            hostname,
            system_version,
            kernel_version,
            uptime,
            memory,
            disk,
            network,
            temperature,
            containers,
            services: _,
            active_services: _,
            local_ip,
            public_ip,
            current_year,
        } = readings;
        let memory = pair_or_zero_exec(memory);
        let disk = pair_or_zero_exec(disk);
        let network = pair_or_zero_exec(network);
        let containers = match containers {
            Ok(v) => v,
            Err(_) => Vec::new(),
        };
        assert(containers_view(containers@) == snapshot_of(input).containers);
        StatusTemplate {
            hostname: text_or_exec(hostname, literal_text("Unknown", Ghost(unknown_text()))),
            system_version: text_or_exec(
                Some(system_version),
                literal_text("Unknown System", Ghost(unknown_system_text())),
            ),
            kernel_info: text_or_exec(
                Some(kernel_version),
                literal_text("Unknown Kernel", Ghost(unknown_kernel_text())),
            ),
            uptime: text_result_or_exec(uptime, literal_text("Unknown", Ghost(unknown_text()))),
            memory_used: memory.0,
            memory_total: memory.1,
            disk_available: disk.0,
            disk_total: disk.1,
            temperature: text_result_or_exec(
                temperature,
                literal_text("Unavailable", Ghost(no_temperature_text())),
            ),
            network_in: network.0,
            network_out: network.1,
            containers,
            services_status,
            current_year,
            local_ip: text_or_exec(local_ip, literal_text("Unknown", Ghost(unknown_text()))),
            public_ip: text_or_exec(public_ip, literal_text("Unknown", Ghost(unknown_text()))),
        }
    }
}

/// A metric source of the snapshot.
#[derive(Debug, Clone, Copy, PartialEq, Eq, Structural)]
pub enum Source {
    Hostname,
    SystemVersion,
    Kernel,
    Uptime,
    Memory,
    Disk,
    Network,
    Temperature,
    Containers,
    LocalIp,
    PublicIp,
}

/// The readings with source `k` failed, with error `e` where the source
/// reports one.
pub open spec fn with_failed(r: ReadingsView, k: Source, e: SystemError) -> ReadingsView {
    match k {
        Source::Hostname => ReadingsView { hostname: None, ..r },
        Source::SystemVersion => ReadingsView { system_version: Seq::empty(), ..r },
        Source::Kernel => ReadingsView { kernel_version: Seq::empty(), ..r },
        Source::Uptime => ReadingsView { uptime: Err(e), ..r },
        Source::Memory => ReadingsView { memory: Err(e), ..r },
        Source::Disk => ReadingsView { disk: Err(e), ..r },
        Source::Network => ReadingsView { network: Err(e), ..r },
        Source::Temperature => ReadingsView { temperature: Err(e), ..r },
        Source::Containers => ReadingsView { containers: Err(e), ..r },
        Source::LocalIp => ReadingsView { local_ip: None, ..r },
        Source::PublicIp => ReadingsView { public_ip: None, ..r },
    }
}

/// The snapshot with the field of source `k` at its sentinel.
pub open spec fn with_sentinel(s: SnapshotView, k: Source) -> SnapshotView {
    match k {
        Source::Hostname => SnapshotView { hostname: unknown_text(), ..s },
        Source::SystemVersion => SnapshotView { system_version: unknown_system_text(), ..s },
        Source::Kernel => SnapshotView { kernel_info: unknown_kernel_text(), ..s },
        Source::Uptime => SnapshotView { uptime: unknown_text(), ..s },
        Source::Memory => SnapshotView { memory_used: 0, memory_total: 0, ..s },
        Source::Disk => SnapshotView { disk_available: 0, disk_total: 0, ..s },
        Source::Network => SnapshotView { network_in: 0, network_out: 0, ..s },
        Source::Temperature => SnapshotView { temperature: no_temperature_text(), ..s },
        Source::Containers => SnapshotView { containers: Seq::empty(), ..s },
        Source::LocalIp => SnapshotView { local_ip: unknown_text(), ..s },
        Source::PublicIp => SnapshotView { public_ip: unknown_text(), ..s },
    }
}

/// Fault isolation: when one source fails, the snapshot is still complete,
/// that source's field holds its sentinel, and every other field is what it
/// would have been.
pub proof fn lemma_fault_isolation(r: ReadingsView, k: Source, e: SystemError)
    ensures
        snapshot_of(with_failed(r, k, e)) == with_sentinel(snapshot_of(r), k),
        is_complete(snapshot_of(with_failed(r, k, e))),
{
}

/// Every snapshot is complete, whatever the readings.
pub proof fn lemma_snapshot_complete(r: ReadingsView)
    ensures
        is_complete(snapshot_of(r)),
{
}

/// The readings without the clock-derived and counter sources: uptime,
/// network counters and the year.
pub open spec fn without_clock(r: ReadingsView) -> ReadingsView {
    ReadingsView {
        uptime: Err(SystemError::UptimeUnavailable),
        network: Err(SystemError::NetworkTrafficUnavailable),
        current_year: 0,
        ..r
    }
}

/// The snapshot without its clock-derived and counter fields.
pub open spec fn snapshot_without_clock(s: SnapshotView) -> SnapshotView {
    SnapshotView { uptime: Seq::empty(), network_in: 0, network_out: 0, current_year: 0, ..s }
}

/// Aggregating twice over an unchanged host gives snapshots that agree in
/// every field but the clock-derived and counter ones.
pub proof fn lemma_same_state_same_snapshot(a: ReadingsView, b: ReadingsView)
    requires
        without_clock(a) == without_clock(b),
    ensures
        snapshot_without_clock(snapshot_of(a)) == snapshot_without_clock(snapshot_of(b)),
{
    assert(a.services == without_clock(a).services);
    assert(b.services == without_clock(b).services);
}

/// A text that was not reported reads as empty.
pub open spec fn or_empty(s: Option<Seq<char>>) -> Seq<char> {
    match s {
        Some(t) => t,
        None => Seq::empty(),
    }
}

/// The container that a listing entry of image and state describes.
pub open spec fn listed_container(p: (Option<String>, Option<String>)) -> (Seq<char>, Seq<char>) {
    (or_empty(text_view(p.0)), or_empty(text_view(p.1)))
}

fn text_or_empty(s: &Option<String>) -> (r: String)
    ensures
        r@ == or_empty(text_view(*s)),
{
    match s {
        Some(t) => t.clone(),
        None => String::new(),
    }
}

/// The containers of the runtime's listing, in the order listed; an image
/// or state that was not reported is empty.
pub fn containers_from(listing: &Vec<(Option<String>, Option<String>)>) -> (r: Vec<ContainerStatus>)
    ensures
        containers_view(r@) == listing@.map_values(
            |p: (Option<String>, Option<String>)| listed_container(p),
        ),
{
    let mut out: Vec<ContainerStatus> = Vec::new();
    let mut i: usize = 0;
    while i < listing.len()
        invariant
            i <= listing@.len(),
            containers_view(out@) == listing@.take(i as int).map_values(
                |p: (Option<String>, Option<String>)| listed_container(p),
            ),
        decreases listing.len() - i,
    {
        let c = ContainerStatus {
            image: text_or_empty(&listing[i].0),
            state: text_or_empty(&listing[i].1),
        };
        let ghost before = out@;
        out.push(c);
        proof {
            let a = containers_view(out@);
            let b = listing@.take(i + 1).map_values(
                |p: (Option<String>, Option<String>)| listed_container(p),
            );
            let b0 = listing@.take(i as int).map_values(
                |p: (Option<String>, Option<String>)| listed_container(p),
            );
            assert(out@ == before.push(c));
            assert(containers_view(before).len() == before.len() && b0.len() == i);
            assert(a.len() == b.len());
            assert forall|k: int| 0 <= k < a.len() implies a[k] == b[k] by {
                if k < i {
                    assert(out@[k] == before[k]);
                    assert(listing@.take(i + 1)[k] == listing@.take(i as int)[k]);
                    assert(b[k] == b0[k]);
                } else {
                    assert(out@[k] == c);
                    assert(listing@.take(i + 1)[k] == listing@[k]);
                }
            }
            assert(a =~= b);
        }
        i = i + 1;
    }
    assert(listing@.take(i as int) =~= listing@);
    out
}

/// An interface address that is the host's local IPv4 address: not a
/// loopback interface, and an IPv4 address.
pub open spec fn is_local_ipv4(a: InterfaceAddress) -> bool {
    !a.is_loopback && a.ipv4 is Some
}

/// The IPv4 address of the first interface that is not a loopback one and
/// has one, if any.
pub fn first_local_ipv4(interfaces: &Vec<InterfaceAddress>) -> (r: Option<String>)
    ensures
        match r {
            Some(ip) => exists|i: int|
                0 <= i < interfaces@.len() && is_local_ipv4(#[trigger] interfaces@[i])
                    && interfaces@[i].ipv4 == Some(ip) && forall|j: int|
                    0 <= j < i ==> !is_local_ipv4(#[trigger] interfaces@[j]),
            None => forall|i: int|
                0 <= i < interfaces@.len() ==> !is_local_ipv4(#[trigger] interfaces@[i]),
        },
{
    let mut i: usize = 0;
    while i < interfaces.len()
        invariant
            i <= interfaces@.len(),
            forall|j: int| 0 <= j < i ==> !is_local_ipv4(#[trigger] interfaces@[j]),
        decreases interfaces.len() - i,
    {
        if !interfaces[i].is_loopback {
            match &interfaces[i].ipv4 {
                Some(ip) => {
                    let r = ip.clone();
                    assert(is_local_ipv4(interfaces@[i as int]));
                    return Some(r);
                },
                None => {},
            }
        }
        i = i + 1;
    }
    None
}

} // verus!
