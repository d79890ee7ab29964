//! The agent's processes: where the program is found, how it is started, and which of its
//! process groups are running.

use std::collections::HashSet;

use vstd::prelude::*;
use vstd::std_specs::hash::*;
use vstd::string::*;
use vstd::utf8::{decode_utf8, valid_utf8};

use crate::text::{before, decimal, same, split_once, to_decimal, trim, trimmed};

verus! {

broadcast use group_hash_axioms;

// Process groups
/// The process groups of running requests: none yet.
pub fn active_agent_groups() -> (groups: HashSet<i32>)
    ensures
        groups@ == Set::<i32>::empty(),
{
    HashSet::new()
}

/// The running groups after one more has begun.
pub open spec fn registered(groups: Set<i32>, pgid: i32) -> Set<i32> {
    groups.insert(pgid)
}

/// The running groups after one has ended.
pub open spec fn unregistered(groups: Set<i32>, pgid: i32) -> Set<i32> {
    groups.remove(pgid)
}

/// Notes that the group of a request is running.
pub fn register_agent_group(groups: &mut HashSet<i32>, pgid: i32)
    ensures
        final(groups)@ == registered(old(groups)@, pgid),
        final(groups)@ == old(groups)@.insert(pgid),
{
    groups.insert(pgid);
}

/// Notes that the group of a request has ended.
pub fn unregister_agent_group(groups: &mut HashSet<i32>, pgid: i32)
    ensures
        final(groups)@ == unregistered(old(groups)@, pgid),
        final(groups)@ == old(groups)@.remove(pgid),
{
    groups.remove(&pgid);
    assert(groups@ =~= old(groups)@.remove(pgid));
}

/// The groups that are to be terminated when the program ends: each that is running, once, in
/// no particular order.
pub fn terminate_active_agents(groups: &HashSet<i32>) -> (running: Vec<i32>)
    ensures
        running@.no_duplicates(),
        forall|pgid: i32| running@.contains(pgid) <==> groups@.contains(pgid),
{
    let mut running: Vec<i32> = Vec::new();
    let ghost all = vstd::std_specs::iter::IteratorSpec::remaining(&groups.iter());
    for pgid in it: groups.iter()
        invariant
            it.seq() == all,
            running@ == all.unref().take(it.index() as int),
    {
        running.push(*pgid);
    }
    assert(running@ =~= all.unref());
    assert forall|pgid: i32| running@.contains(pgid) <==> groups@.contains(pgid) by {
        assert(all.unref().to_set().contains(pgid) <==> all.unref().contains(pgid));
    }
    running
}

/// A group that is registered and then unregistered leaves no trace, and while it is registered
/// it is among those that are terminated.
pub proof fn law_group_lifetime(groups: Set<i32>, pgid: i32)
    requires
        !groups.contains(pgid),
    ensures
        groups.insert(pgid).contains(pgid),
        groups.insert(pgid).remove(pgid) == groups,
{
    assert(groups.insert(pgid).remove(pgid) =~= groups);
}

// Output of commands
/// The text that `String::from_utf8_lossy` makes of bytes that are not all UTF-8.
pub uninterp spec fn repaired_utf8(bytes: Seq<u8>) -> Seq<char>;

/// The text of bytes: what they encode, or, where they are not all UTF-8, what is made of them.
pub open spec fn bytes_text(bytes: Seq<u8>) -> Seq<char> {
    if valid_utf8(bytes) {
        decode_utf8(bytes)
    } else {
        repaired_utf8(bytes)
    }
}

/// `String::from_utf8_lossy`: valid UTF-8 is decoded; the text made of other bytes depends on
/// the bytes alone.
#[verifier::external_body]
fn lossy_text(bytes: &[u8]) -> (text: String)
    ensures
        valid_utf8(bytes@) ==> text@ == decode_utf8(bytes@),
        !valid_utf8(bytes@) ==> text@ == repaired_utf8(bytes@),
{
    String::from_utf8_lossy(bytes).into_owned()
}

/// What a command answered, by how it ended and what it wrote: nothing where it failed, else
/// its text without the whitespace around it.
pub open spec fn command_answer(success: bool, stdout: Seq<u8>) -> Seq<char> {
    text_answer(success, bytes_text(stdout))
}

/// What a command answered, by how it ended and the text that it wrote.
pub open spec fn text_answer(success: bool, text: Seq<char>) -> Seq<char> {
    if success {
        trimmed(text)
    } else {
        seq![]
    }
}

/// What a command answered, once its output has been read as text.
pub fn answer_of_text(success: bool, text: &str) -> (answer: String)
    ensures
        answer@ == text_answer(success, text@),
        answer@ == (if success {
            trimmed(text@)
        } else {
            seq![]
        }),
{
    if success {
        trim(text).to_owned()
    } else {
        String::new()
    }
}

/// What a command answered.
pub fn read_answer(success: bool, stdout: &[u8]) -> (answer: String)
    ensures
        answer@ == command_answer(success, stdout@),
{
    let text = lossy_text(stdout);
    answer_of_text(success, text.as_str())
}

// Token
/// An optional text as the contracts speak of it.
pub open spec fn opt_view(s: Option<&str>) -> Option<Seq<char>> {
    match s {
        Some(s) => Some(s@),
        None => None,
    }
}

/// The first of two variables that is set and not empty.
pub open spec fn first_set(first: Option<Seq<char>>, second: Option<Seq<char>>) -> Option<
    Seq<char>,
> {
    match first {
        Some(t) if t.len() > 0 => Some(t),
        _ => match second {
            Some(t) if t.len() > 0 => Some(t),
            _ => None,
        },
    }
}

/// The token that the environment gives: the first of the two variables that is set and not
/// empty. Where there is none, the keychain is to be asked.
pub fn environment_token(cursor_token: Option<&str>, cursor_api_key: Option<&str>) -> (token:
    Option<String>)
    ensures
        match token {
            Some(t) => first_set(opt_view(cursor_token), opt_view(cursor_api_key)) == Some(t@),
            None => first_set(opt_view(cursor_token), opt_view(cursor_api_key)) is None,
        },
{
    match cursor_token {
        Some(t) => {
            if !t.is_empty() {
                return Some(t.to_owned());
            }
        },
        None => {},
    }
    match cursor_api_key {
        Some(t) => {
            if !t.is_empty() {
                return Some(t.to_owned());
            }
        },
        None => {},
    }
    None
}

// Finding the program
/// One way to find the agent's program.
#[derive(Debug)]
pub enum Probe {
    /// It may be the file at this path.
    Path(String),
    /// This command may answer with its path.
    Command { program: String, args: Vec<String> },
}

/// A probe as the contracts speak of it.
pub enum ProbeView {
    Path(Seq<char>),
    Command { program: Seq<char>, args: Seq<Seq<char>> },
}

/// Strings as the contracts speak of them.
pub open spec fn strings(list: Seq<String>) -> Seq<Seq<char>> {
    list.map_values(|s: String| s@)
}

impl View for Probe {
    type V = ProbeView;

    open spec fn view(&self) -> ProbeView {
        match *self {
            Probe::Path(path) => ProbeView::Path(path@),
            Probe::Command { program, args } => ProbeView::Command {
                program: program@,
                args: strings(args@),
            },
        }
    }
}

/// Probes as the contracts speak of them.
pub open spec fn probe_views(probes: Seq<Probe>) -> Seq<ProbeView> {
    probes.map_values(|p: Probe| p@)
}

/// What came of a probe.
#[derive(Debug)]
pub enum Finding {
    /// Whether there is a file at the path.
    Exists(bool),
    /// How the command ended and what it wrote; one that could not be started failed.
    Output { success: bool, stdout: Vec<u8> },
}

/// The path that a probe has found, if it has.
pub open spec fn found(probe: ProbeView, finding: Finding) -> Option<Seq<char>> {
    match (probe, finding) {
        (ProbeView::Path(path), Finding::Exists(true)) => Some(path),
        (ProbeView::Command { .. }, Finding::Output { success, stdout }) => {
            let answer = command_answer(success, stdout@);
            if answer.len() > 0 {
                Some(answer)
            } else {
                None
            }
        },
        _ => None,
    }
}

/// The ways to find the agent, in order: the path that the environment names, what the shell
/// and `which` know, the usual places, and the user's own programs.
pub open spec fn agent_probes(agent_path: Option<Seq<char>>, home: Seq<char>) -> Seq<ProbeView> {
    let named = match agent_path {
        Some(path) if path.len() > 0 => seq![ProbeView::Path(path)],
        _ => seq![],
    };
    let common = seq![
        ProbeView::Command { program: "sh"@, args: seq!["-c"@, "command -v agent"@] },
        ProbeView::Command { program: "which"@, args: seq!["agent"@] },
        ProbeView::Path("/usr/local/bin/agent"@),
        ProbeView::Path("/opt/homebrew/bin/agent"@),
        ProbeView::Path("/usr/bin/agent"@),
    ];
    let own = if home.len() > 0 {
        seq![ProbeView::Path(home + "/.local/bin/agent"@)]
    } else {
        seq![]
    };
    named + common + own
}

/// A search for the agent's program: the caller tries the current probe and reports what came
/// of it, until one has found the program or none is left.
#[derive(Debug)]
pub struct AgentSearch {
    pub probes: Vec<Probe>,
    pub next: usize,
}

impl AgentSearch {
    /// A search that has not begun.
    pub fn new(agent_path: Option<&str>, home: &str) -> (search: AgentSearch)
        ensures
            probe_views(search.probes@) == agent_probes(opt_view(agent_path), home@),
            search.next == 0,
    {
        let mut probes: Vec<Probe> = Vec::new();
        match agent_path {
            Some(path) => {
                if !path.is_empty() {
                    probes.push(Probe::Path(path.to_owned()));
                }
            },
            None => {},
        }
        let mut shell: Vec<String> = Vec::new();
        shell.push("-c".to_owned());
        shell.push("command -v agent".to_owned());
        let mut which: Vec<String> = Vec::new();
        which.push("agent".to_owned());
        assert(strings(shell@) =~= seq!["-c"@, "command -v agent"@]);
        assert(strings(which@) =~= seq!["agent"@]);
        probes.push(Probe::Command { program: "sh".to_owned(), args: shell });
        probes.push(Probe::Command { program: "which".to_owned(), args: which });
        probes.push(Probe::Path("/usr/local/bin/agent".to_owned()));
        probes.push(Probe::Path("/opt/homebrew/bin/agent".to_owned()));
        probes.push(Probe::Path("/usr/bin/agent".to_owned()));
        if !home.is_empty() {
            let mut own = home.to_owned();
            own.append("/.local/bin/agent");
            probes.push(Probe::Path(own));
        }
        assert(probe_views(probes@) =~= agent_probes(opt_view(agent_path), home@));
        AgentSearch { probes, next: 0 }
    }

    /// The probe to try next; none where all have been tried.
    pub fn current(&self) -> (probe: Option<&Probe>)
        ensures
            match probe {
                Some(p) => self.next < self.probes@.len() && *p == self.probes@[self.next as int],
                None => self.next >= self.probes@.len(),
            },
    {
        if self.next < self.probes.len() {
            Some(&self.probes[self.next])
        } else {
            None
        }
    }

    /// Takes what came of the current probe: the path where it has found the program;
    /// otherwise the search moves on.
    pub fn report(&mut self, finding: &Finding) -> (path: Option<String>)
        requires
            old(self).next < old(self).probes@.len(),
        ensures
            final(self).probes == old(self).probes,
            match path {
                Some(p) => found(old(self).probes@[old(self).next as int]@, *finding) == Some(p@)
                    && final(self).next == old(self).next,
                None => found(old(self).probes@[old(self).next as int]@, *finding) is None
                    && final(self).next == old(self).next + 1,
            },
    {
        let total: usize = self.probes.len();
        assert(self.next < total);
        match (&self.probes[self.next], finding) {
            (Probe::Path(path), Finding::Exists(there)) => {
                if *there {
                    return Some(path.clone());
                }
            },
            (Probe::Command { .. }, Finding::Output { success, stdout }) => {
                let answer = read_answer(*success, stdout.as_slice());
                if !answer.as_str().is_empty() {
                    return Some(answer);
                }
            },
            _ => {},
        }
        self.next = self.next + 1;
        None
    }
}

/// A path that a search has found is never empty.
pub proof fn law_found_path_is_not_empty(
    agent_path: Option<Seq<char>>,
    home: Seq<char>,
    i: int,
    finding: Finding,
)
    requires
        0 <= i < agent_probes(agent_path, home).len(),
    ensures
        found(agent_probes(agent_path, home)[i], finding) matches Some(path) ==> path.len() > 0,
{
    reveal_strlit("/usr/local/bin/agent");
    reveal_strlit("/opt/homebrew/bin/agent");
    reveal_strlit("/usr/bin/agent");
    reveal_strlit("/.local/bin/agent");
}

// Starting the program
/// The arguments with which the agent is started: it runs without interaction, approves its
/// own tool calls, streams its output piece by piece, and goes on with a session where one is
/// given.
pub open spec fn agent_args(model: Seq<char>, resume: Option<Seq<char>>) -> Seq<Seq<char>> {
    let always = seq![
        "--print"@,
        "--force"@,
        "--output-format"@,
        "stream-json"@,
        "--stream-partial-output"@,
        "--model"@,
        model,
        "--trust"@,
    ];
    match resume {
        Some(chat_id) => always + seq!["--resume"@, chat_id],
        None => always,
    }
}

/// The arguments with which the agent is started.
pub fn spawn_args(requested_model: &str, resume: Option<&str>) -> (args: Vec<String>)
    ensures
        strings(args@) == agent_args(requested_model@, opt_view(resume)),
{
    let mut args: Vec<String> = Vec::new();
    args.push("--print".to_owned());
    args.push("--force".to_owned());
    args.push("--output-format".to_owned());
    args.push("stream-json".to_owned());
    args.push("--stream-partial-output".to_owned());
    args.push("--model".to_owned());
    args.push(requested_model.to_owned());
    args.push("--trust".to_owned());
    match resume {
        Some(chat_id) => {
            args.push("--resume".to_owned());
            args.push(chat_id.to_owned());
        },
        None => {},
    }
    assert(strings(args@) =~= agent_args(requested_model@, opt_view(resume)));
    args
}

/// The settings of the directory in which the agent runs: the plugin whose hooks would fire on
/// every tool call is off.
pub const SANDBOX_SETTINGS: &'static str = r#"{"enabledPlugins":{"context-mode@context-mode":false}}"#;

/// The name of the directory in which the agent of the process `pid` runs.
pub open spec fn sandbox_dir(pid: u32) -> Seq<char> {
    "cursor-bridge-"@ + decimal(pid as int)
}

/// The name of the directory in which the agent of the process `pid` runs.
pub fn sandbox_name(pid: u32) -> (name: String)
    ensures
        name@ == sandbox_dir(pid),
        name@ == "cursor-bridge-"@ + decimal(pid as int),
{
    let mut name = "cursor-bridge-".to_owned();
    name.append(to_decimal(pid as u64).as_str());
    name
}

// The client
/// The client that is started: the name of its program, and which of its forms it is.
pub const CLIENT: &'static str = "claude_code";

/// The name of the client's program.
pub open spec fn program_name() -> Seq<char> {
    before(CLIENT@, '_')
}

/// The name of the client's program.
pub fn client_program() -> (name: &'static str)
    ensures
        name@ == program_name(),
{
    split_once(CLIENT, '_').0
}

/// The name of the directory in which settings of the client's kind are looked for.
pub fn settings_dir() -> (name: String)
    ensures
        name@ == "."@ + program_name(),
{
    let mut name = ".".to_owned();
    name.append(client_program());
    name
}

/// The arguments ask for help.
pub open spec fn asks_for_help(args: Seq<Seq<char>>) -> bool {
    args.contains("--help"@) || args.contains("-h"@)
}

/// Whether the arguments ask for help.
pub fn wants_help(args: &[String]) -> (yes: bool)
    ensures
        yes == asks_for_help(strings(args@)),
        yes == (strings(args@).contains("--help"@) || strings(args@).contains("-h"@)),
{
    let ghost all = strings(args@);
    let mut i: usize = 0;
    while i < args.len()
        invariant
            i <= args@.len(),
            all == strings(args@),
            forall|j: int| 0 <= j < i ==> all[j] != "--help"@ && all[j] != "-h"@,
        decreases args@.len() - i,
    {
        assert(all[i as int] == args@[i as int]@);
        if same(args[i].as_str(), "--help") || same(args[i].as_str(), "-h") {
            return true;
        }
        i = i + 1;
    }
    false
}

/// The environment in which the client is started: it talks to the port on this machine.
pub open spec fn client_environment(port: u16) -> Seq<(Seq<char>, Seq<char>)> {
    seq![
        ("ANTHROPIC_BASE_URL"@, "http://127.0.0.1:"@ + decimal(port as int)),
        ("ANTHROPIC_AUTH_TOKEN"@, "sk-any"@),
        ("ANTHROPIC_API_KEY"@, ""@),
        ("ANTHROPIC_MODEL"@, "cursor-auto"@),
        ("CLAUDE_CODE_DISABLE_NONESSENTIAL_TRAFFIC"@, "1"@),
    ]
}

/// Pairs of strings as the contracts speak of them.
pub open spec fn pairs(list: Seq<(String, String)>) -> Seq<(Seq<char>, Seq<char>)> {
    list.map_values(|p: (String, String)| (p.0@, p.1@))
}

/// The environment in which the client is started.
pub fn client_env(port: u16) -> (env: Vec<(String, String)>)
    ensures
        pairs(env@) == client_environment(port),
{
    let mut url = "http://127.0.0.1:".to_owned();
    url.append(to_decimal(port as u64).as_str());
    let mut env: Vec<(String, String)> = Vec::new();
    env.push(("ANTHROPIC_BASE_URL".to_owned(), url));
    env.push(("ANTHROPIC_AUTH_TOKEN".to_owned(), "sk-any".to_owned()));
    env.push(("ANTHROPIC_API_KEY".to_owned(), "".to_owned()));
    env.push(("ANTHROPIC_MODEL".to_owned(), "cursor-auto".to_owned()));
    env.push(("CLAUDE_CODE_DISABLE_NONESSENTIAL_TRAFFIC".to_owned(), "1".to_owned()));
    assert(pairs(env@) =~= client_environment(port));
    env
}

// The proxy
/// The proxy that the client talks to.
#[derive(Debug)]
pub struct Proxy {
    pub port: u16,
}

impl Proxy {
    /// The proxy on this port.
    pub fn new(port: u16) -> (proxy: Proxy)
        ensures
            proxy.port == port,
    {
        Proxy { port }
    }

    /// The port of the proxy.
    pub fn port(&self) -> (port: u16)
        ensures
            port == self.port,
    {
        self.port
    }
}

/// What came of waiting for a connection.
#[derive(Debug, Clone, Copy, PartialEq, Eq, Structural)]
pub enum Accepted {
    Connection,
    NoneYet,
    Failed,
}

/// What the proxy does next.
#[derive(Debug, Clone, Copy, PartialEq, Eq, Structural)]
pub enum ProxyStep {
    Serve,
    Wait,
    Stop,
}

/// What the proxy does next.
pub open spec fn next_step(shutdown: bool, accepted: Accepted) -> ProxyStep {
    if shutdown || accepted == Accepted::Failed {
        ProxyStep::Stop
    } else if accepted == Accepted::Connection {
        ProxyStep::Serve
    } else {
        ProxyStep::Wait
    }
}

/// What the proxy does next: it serves a connection, waits where there is none yet, and stops
/// when it is shut down or can accept no more.
pub fn proxy_step(shutdown: bool, accepted: Accepted) -> (step: ProxyStep)
    ensures
        step == next_step(shutdown, accepted),
        step == (if shutdown || accepted == Accepted::Failed {
            ProxyStep::Stop
        } else if accepted == Accepted::Connection {
            ProxyStep::Serve
        } else {
            ProxyStep::Wait
        }),
{
    if shutdown {
        return ProxyStep::Stop;
    }
    match accepted {
        Accepted::Connection => ProxyStep::Serve,
        Accepted::NoneYet => ProxyStep::Wait,
        Accepted::Failed => ProxyStep::Stop,
    }
}

} // verus!
