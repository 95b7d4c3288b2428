//! The settings of the servers, and how a configuration's projects become
//! servers with ports of their own.

use vstd::prelude::*;
use crate::facts::ArchivedRequest;

verus! {

/// How long playback waits before it answers a matched request.
#[derive(Debug, Clone, Copy, PartialEq, Eq, Structural)]
pub enum DelayOptions {
    /// Answer at once.
    NoDelay,
    /// Wait as long as the recorded exchange took.
    Original,
    /// Wait a fixed number of milliseconds.
    Static { millis: u64 },
}

/// What a project says of playback.
#[derive(Debug, Clone, Copy, PartialEq, Eq, Structural)]
pub struct PlaybackConfig {
    pub delay: Option<DelayOptions>,
}

/// What a project says of recording: where to send requests on to, and
/// the statuses whose responses are not archived.
#[derive(Debug, PartialEq, Eq)]
pub struct ProxyConfig {
    pub uri: String,
    pub ignored_status_codes: Vec<u16>,
}

/// One project of a configuration.
#[derive(Debug, PartialEq, Eq)]
pub struct ProjectConfig {
    pub name: String,
    pub addr: Option<String>,
    pub port: Option<u16>,
    pub playback: Option<PlaybackConfig>,
    pub record: Option<ProxyConfig>,
}

/// A configuration: its projects, in order.
#[derive(Debug, PartialEq, Eq)]
pub struct Config {
    pub projects: Vec<ProjectConfig>,
}

/// A playback server before its archives are loaded.
#[derive(Debug, PartialEq, Eq)]
pub struct PlaybackProject {
    pub name: String,
    pub addr: String,
    pub port: u16,
    pub delay: DelayOptions,
}

/// A playback server: where it listens, what it plays back and how it delays.
pub struct PlaybackServerConfig {
    pub name: String,
    pub addr: String,
    pub port: u16,
    pub archives: Vec<ArchivedRequest>,
    pub delay: DelayOptions,
}

impl PlaybackServerConfig {
    /// A playback server of these settings.
    pub fn new(
        name: String,
        addr: String,
        port: u16,
        archives: Vec<ArchivedRequest>,
        delay: DelayOptions,
    ) -> (c: PlaybackServerConfig)
        ensures
            c.name == name,
            c.addr == addr,
            c.port == port,
            c.archives == archives,
            c.delay == delay,
    {
        PlaybackServerConfig { name, addr, port, archives, delay }
    }
}

/// A recording server: where it listens, where it sends requests on to,
/// under which directory it archives, and the statuses it does not archive.
#[derive(Debug, PartialEq, Eq)]
pub struct ProxyServerConfig {
    pub name: String,
    pub addr: String,
    pub port: u16,
    pub archive_path: String,
    pub proxy_for: String,
    pub ignored_status_codes: Vec<u16>,
}

impl ProxyServerConfig {
    /// A recording server of these settings that archives every status.
    pub fn new(
        name: String,
        addr: String,
        port: u16,
        proxy_for: String,
        archive_path: String,
    ) -> (c: ProxyServerConfig)
        ensures
            c.name == name,
            c.addr == addr,
            c.port == port,
            c.proxy_for == proxy_for,
            c.archive_path == archive_path,
            c.ignored_status_codes@ == Seq::<u16>::empty(),
    {
        ProxyServerConfig {
            name,
            addr,
            port,
            archive_path,
            proxy_for,
            ignored_status_codes: Vec::new(),
        }
    }
}

/// The least port at or above `from` that is not among `used`, or 65535
/// where every port from there up to 65534 is.
pub open spec fn least_unused(used: Seq<u16>, from: int) -> int
    decreases 65535 - from,
{
    if from >= 65535 {
        65535
    } else if !used.contains(from as u16) {
        from
    } else {
        least_unused(used, from + 1)
    }
}

/// Hands out ports that were not seen before, upwards from a start.
pub struct NextUnusedPort {
    current: u16,
    used: Vec<u16>,
}

impl NextUnusedPort {
    /// The port that is tried next.
    pub closed spec fn current(&self) -> u16 {
        self.current
    }

    /// The ports seen so far.
    pub closed spec fn used(&self) -> Seq<u16> {
        self.used@
    }

    /// An allocator that starts at `start` and has seen no port.
    pub fn new(start: u16) -> (r: NextUnusedPort)
        ensures
            r.current() == start,
            r.used() == Seq::<u16>::empty(),
    {
        NextUnusedPort { current: start, used: Vec::new() }
    }

    /// Takes note of a port that is in use and hands it back.
    pub fn observe(&mut self, val: u16) -> (r: u16)
        ensures
            r == val,
            final(self).used() == old(self).used().push(val),
            final(self).current() == old(self).current(),
    {
        self.used.push(val);
        val
    }

    /// Whether a port was seen.
    fn seen(&self, port: u16) -> (r: bool)
        ensures
            r == self.used().contains(port),
    {
        let mut i: usize = 0;
        while i < self.used.len()
            invariant
                i <= self.used.len(),
                forall|j: int| 0 <= j < i ==> self.used@[j] != port,
            decreases self.used.len() - i,
        {
            if self.used[i] == port {
                return true;
            }
            i += 1;
        }
        false
    }

    /// The next port that was not seen, which is then taken note of. There
    /// is none once the search has reached port 65535, and none is handed
    /// out where the port after it is 65535.
    pub fn next(&mut self) -> (r: Option<u16>)
        ensures
            ({
                let free = least_unused(old(self).used(), old(self).current() as int);
                if free >= 65535 {
                    r is None && final(self).current() == 65535 && final(self).used() == old(
                        self,
                    ).used()
                } else {
                    &&& final(self).used() == old(self).used().push(free as u16)
                    &&& final(self).current() == free + 1
                    &&& r == if free == 65534 {
                        None
                    } else {
                        Some(free as u16)
                    }
                }
            }),
    {
        if self.current == u16::MAX {
            assert(least_unused(self.used(), 65535) == 65535);
            return None;
        }
        while self.seen(self.current)
            invariant
                self.current < u16::MAX,
                self.used() == old(self).used(),
                old(self).current() <= self.current,
                least_unused(self.used(), old(self).current() as int) == least_unused(
                    self.used(),
                    self.current as int,
                ),
            decreases u16::MAX - self.current,
        {
            assert(least_unused(self.used(), self.current as int) == least_unused(
                self.used(),
                self.current + 1,
            ));
            self.current += 1;
            if self.current == u16::MAX {
                assert(least_unused(self.used(), 65535) == 65535);
                return None;
            }
        }
        let p = self.current;
        assert(least_unused(self.used(), p as int) == p);
        self.observe(p);
        self.current += 1;
        if self.current == u16::MAX {
            return None;
        }
        Some(p)
    }
}

/// What turning a configuration into servers can fail on.
#[derive(Debug, Clone, Copy, PartialEq, Eq, Structural)]
pub enum ConfigError {
    /// A project without a port of its own found no port left.
    OutOfPorts,
}

/// The state of handing out ports to projects one after another.
pub struct Assignment {
    /// The port that is tried next.
    pub current: u16,
    /// The ports seen so far.
    pub used: Seq<u16>,
    /// The ports of the projects so far, in order.
    pub ports: Seq<u16>,
    /// Whether a project found no port.
    pub failed: bool,
}

/// Gives the next project its port: the one it asks for, which is taken
/// note of, or else the next that was not seen.
pub open spec fn give_port(a: Assignment, wanted: Option<u16>) -> Assignment {
    if a.failed {
        a
    } else {
        match wanted {
            Some(p) => Assignment { used: a.used.push(p), ports: a.ports.push(p), ..a },
            None => {
                let free = least_unused(a.used, a.current as int);
                if free >= 65535 {
                    Assignment { current: 65535, failed: true, ..a }
                } else if free == 65534 {
                    Assignment { current: 65535, used: a.used.push(free as u16), failed: true, ..a }
                } else {
                    Assignment {
                        current: (free + 1) as u16,
                        used: a.used.push(free as u16),
                        ports: a.ports.push(free as u16),
                        failed: false,
                    }
                }
            },
        }
    }
}

/// Gives each project its port, in order, with the search starting at `start`.
pub open spec fn assign_ports(wanted: Seq<Option<u16>>, start: u16) -> Assignment
    decreases wanted.len(),
{
    if wanted.len() == 0 {
        Assignment { current: start, used: Seq::empty(), ports: Seq::empty(), failed: false }
    } else {
        give_port(assign_ports(wanted.drop_last(), start), wanted.last())
    }
}

/// The projects that record or, where `recording` is false, play back.
pub open spec fn chosen(projects: Seq<ProjectConfig>, recording: bool) -> Seq<ProjectConfig>
    decreases projects.len(),
{
    if projects.len() == 0 {
        Seq::empty()
    } else {
        let before = chosen(projects.drop_last(), recording);
        if is_chosen(projects.last(), recording) {
            before.push(projects.last())
        } else {
            before
        }
    }
}

/// Whether a project records or, where `recording` is false, plays back.
pub open spec fn is_chosen(project: ProjectConfig, recording: bool) -> bool {
    if recording {
        project.record is Some
    } else {
        project.playback is Some
    }
}

/// The ports that projects ask for.
pub open spec fn wanted_ports(projects: Seq<ProjectConfig>) -> Seq<Option<u16>> {
    projects.map_values(|p: ProjectConfig| p.port)
}

/// The address that a project listens on: its own, or else the loopback address.
pub open spec fn address_of(project: ProjectConfig) -> Seq<char> {
    match project.addr {
        Some(a) => a@,
        None => "127.0.0.1"@,
    }
}

/// Whether `server` is the recording server of `project` on `port`.
pub open spec fn is_proxy_server(
    server: ProxyServerConfig,
    project: ProjectConfig,
    port: u16,
    dir: Seq<char>,
) -> bool {
    &&& project.record is Some
    &&& server.name@ == project.name@
    &&& server.addr@ == address_of(project)
    &&& server.port == port
    &&& server.proxy_for@ == project.record->0.uri@
    &&& server.archive_path@ == dir
    &&& server.ignored_status_codes@ == project.record->0.ignored_status_codes@
}

/// Whether `server` is the playback server of `project` on `port`.
pub open spec fn is_playback_project(
    server: PlaybackProject,
    project: ProjectConfig,
    port: u16,
) -> bool {
    &&& project.playback is Some
    &&& server.name@ == project.name@
    &&& server.addr@ == address_of(project)
    &&& server.port == port
    &&& server.delay == match project.playback->0.delay {
        Some(d) => d,
        None => DelayOptions::NoDelay,
    }
}

impl NextUnusedPort {
    /// Whether this allocator stands where `a` does.
    pub open spec fn stands_at(&self, a: Assignment) -> bool {
        self.current() == a.current && self.used() == a.used
    }

    /// The port of the next project: the one it asks for, which is taken
    /// note of, or else the next that was not seen.
    fn take_port(&mut self, wanted: Option<u16>, Ghost(a): Ghost<Assignment>) -> (r: Option<u16>)
        requires
            old(self).stands_at(a),
            !a.failed,
        ensures
            final(self).stands_at(give_port(a, wanted)),
            match r {
                Some(port) => !give_port(a, wanted).failed && give_port(a, wanted).ports
                    == a.ports.push(port),
                None => give_port(a, wanted).failed,
            },
    {
        match wanted {
            Some(p) => Some(self.observe(p)),
            None => self.next(),
        }
    }
}

/// The address that a project listens on.
fn address(project: &ProjectConfig) -> (r: String)
    ensures
        r@ == address_of(*project),
{
    match &project.addr {
        Some(a) => a.clone(),
        None => String::from_str("127.0.0.1"),
    }
}

/// Copies a list of statuses.
fn copy_codes(codes: &Vec<u16>) -> (r: Vec<u16>)
    ensures
        r@ == codes@,
{
    codes.clone()
}

/// One more project is chosen or passed over.
proof fn lemma_chosen_step(projects: Seq<ProjectConfig>, i: int, recording: bool)
    requires
        0 <= i < projects.len(),
    ensures
        chosen(projects.take(i + 1), recording) == if is_chosen(projects[i], recording) {
            chosen(projects.take(i), recording).push(projects[i])
        } else {
            chosen(projects.take(i), recording)
        },
        is_chosen(projects[i], recording) ==> assign_ports(
            wanted_ports(chosen(projects.take(i + 1), recording)),
            8080,
        ) == give_port(
            assign_ports(wanted_ports(chosen(projects.take(i), recording)), 8080),
            projects[i].port,
        ),
{
    assert(projects.take(i + 1).drop_last() =~= projects.take(i));
    if is_chosen(projects[i], recording) {
        let before = chosen(projects.take(i), recording);
        let now = before.push(projects[i]);
        assert(wanted_ports(now).drop_last() =~= wanted_ports(before));
        assert(wanted_ports(now).last() == projects[i].port);
    }
}

impl Config {
    /// The recording servers of a configuration: one for each project that
    /// records, in order, each on the port it asks for or else on the next
    /// port from 8080 up that no project before it has.
    pub fn try_into_proxy_servers(self, recording_dir: &str) -> (r: Result<
        Vec<ProxyServerConfig>,
        ConfigError,
    >)
        ensures
            ({
                let projects = chosen(self.projects@, true);
                let a = assign_ports(wanted_ports(projects), 8080);
                match r {
                    Ok(servers) => !a.failed && servers@.len() == projects.len() && forall|
                        j: int,
                    |
                        0 <= j < projects.len() ==> is_proxy_server(
                            #[trigger] servers@[j],
                            projects[j],
                            a.ports[j],
                            recording_dir@,
                        ),
                    Err(e) => a.failed && e == ConfigError::OutOfPorts,
                }
            }),
    {
        let mut next_port = NextUnusedPort::new(8080);
        let mut servers: Vec<ProxyServerConfig> = Vec::new();
        let mut i: usize = 0;
        assert(self.projects@.take(0) =~= Seq::<ProjectConfig>::empty());
        while i < self.projects.len()
            invariant
                i <= self.projects.len(),
                ({
                    let projects = chosen(self.projects@.take(i as int), true);
                    let a = assign_ports(wanted_ports(projects), 8080);
                    &&& !a.failed
                    &&& next_port.stands_at(a)
                    &&& servers@.len() == projects.len()
                    &&& a.ports.len() == projects.len()
                    &&& forall|j: int|
                        0 <= j < projects.len() ==> is_proxy_server(
                            #[trigger] servers@[j],
                            projects[j],
                            a.ports[j],
                            recording_dir@,
                        )
                }),
            decreases self.projects.len() - i,
        {
            let p = &self.projects[i];
            let ghost before = chosen(self.projects@.take(i as int), true);
            let ghost a = assign_ports(wanted_ports(before), 8080);
            proof {
                lemma_chosen_step(self.projects@, i as int, true);
            }
            if let Some(record) = &p.record {
                let port = match next_port.take_port(p.port, Ghost(a)) {
                    Some(port) => port,
                    None => {
                        proof {
                            lemma_failure_stays(self.projects@, i + 1, true);
                        }
                        return Err(ConfigError::OutOfPorts);
                    },
                };
                servers.push(
                    ProxyServerConfig {
                        name: p.name.clone(),
                        addr: address(p),
                        port,
                        archive_path: String::from_str(recording_dir),
                        proxy_for: record.uri.clone(),
                        ignored_status_codes: copy_codes(&record.ignored_status_codes),
                    },
                );
            }
            i += 1;
        }
        assert(self.projects@.take(i as int) =~= self.projects@);
        Ok(servers)
    }

    /// The playback servers of a configuration, before their archives are
    /// loaded: one for each project that plays back, in order, each on the
    /// port it asks for or else on the next port from 8080 up that no
    /// project before it has. A project that names no delay has none.
    pub fn try_into_playback_servers(self) -> (r: Result<Vec<PlaybackProject>, ConfigError>)
        ensures
            ({
                let projects = chosen(self.projects@, false);
                let a = assign_ports(wanted_ports(projects), 8080);
                match r {
                    Ok(servers) => !a.failed && servers@.len() == projects.len() && forall|
                        j: int,
                    |
                        0 <= j < projects.len() ==> is_playback_project(
                            #[trigger] servers@[j],
                            projects[j],
                            a.ports[j],
                        ),
                    Err(e) => a.failed && e == ConfigError::OutOfPorts,
                }
            }),
    {
        let mut next_port = NextUnusedPort::new(8080);
        let mut servers: Vec<PlaybackProject> = Vec::new();
        let mut i: usize = 0;
        assert(self.projects@.take(0) =~= Seq::<ProjectConfig>::empty());
        while i < self.projects.len()
            invariant
                i <= self.projects.len(),
                ({
                    let projects = chosen(self.projects@.take(i as int), false);
                    let a = assign_ports(wanted_ports(projects), 8080);
                    &&& !a.failed
                    &&& next_port.stands_at(a)
                    &&& servers@.len() == projects.len()
                    &&& a.ports.len() == projects.len()
                    &&& forall|j: int|
                        0 <= j < projects.len() ==> is_playback_project(
                            #[trigger] servers@[j],
                            projects[j],
                            a.ports[j],
                        )
                }),
            decreases self.projects.len() - i,
        {
            let p = &self.projects[i];
            let ghost before = chosen(self.projects@.take(i as int), false);
            let ghost a = assign_ports(wanted_ports(before), 8080);
            proof {
                lemma_chosen_step(self.projects@, i as int, false);
            }
            if let Some(playback) = &p.playback {
                let port = match next_port.take_port(p.port, Ghost(a)) {
                    Some(port) => port,
                    None => {
                        proof {
                            lemma_failure_stays(self.projects@, i + 1, false);
                        }
                        return Err(ConfigError::OutOfPorts);
                    },
                };
                let delay = match playback.delay {
                    Some(d) => d,
                    None => DelayOptions::NoDelay,
                };
                servers.push(
                    PlaybackProject { name: p.name.clone(), addr: address(p), port, delay },
                );
            }
            i += 1;
        }
        assert(self.projects@.take(i as int) =~= self.projects@);
        Ok(servers)
    }
}

/// Once a project found no port, no later project changes that.
proof fn lemma_failure_stays(projects: Seq<ProjectConfig>, n: int, recording: bool)
    requires
        0 <= n <= projects.len(),
        assign_ports(wanted_ports(chosen(projects.take(n), recording)), 8080).failed,
    ensures
        assign_ports(wanted_ports(chosen(projects, recording)), 8080).failed,
    decreases projects.len() - n,
{
    if n == projects.len() {
        assert(projects.take(n) =~= projects);
    } else {
        lemma_chosen_step(projects, n, recording);
        lemma_failure_stays(projects, n + 1, recording);
    }
}

} // verus!
