//! What holds of how the agent and the client are found, started and stopped.

use vstd::prelude::*;
use vstd::string::*;
use vstd::utf8::{decode_utf8, valid_utf8};

use crate::agent::{
    agent_args, agent_probes, asks_for_help, client_environment, command_answer, first_set, found,
    next_step, registered, repaired_utf8, sandbox_dir, text_answer, unregistered, Accepted, Finding,
    ProbeView, ProxyStep,
};
use crate::text::{decimal, trimmed};

verus! {

// Process groups
/// A group runs from when it is registered until it is unregistered, and the others are not
/// touched.
pub proof fn law_groups_come_and_go(groups: Set<i32>, pgid: i32, other: i32)
    ensures
        registered(groups, pgid).contains(pgid),
        !unregistered(groups, pgid).contains(pgid),
        other != pgid ==> (registered(groups, pgid).contains(other) <==> groups.contains(other)),
        other != pgid ==> (unregistered(groups, pgid).contains(other) <==> groups.contains(other)),
{
}

// Commands
/// A command that succeeded answers with all that it wrote but the outer whitespace; one that
/// failed answers nothing.
pub proof fn law_answers(stdout: Seq<u8>, text: Seq<char>)
    ensures
        text_answer(true, text) == trimmed(text),
        text_answer(false, text).len() == 0,
        command_answer(false, stdout).len() == 0,
        valid_utf8(stdout) ==> command_answer(true, stdout) == trimmed(decode_utf8(stdout)),
        !valid_utf8(stdout) ==> command_answer(true, stdout) == trimmed(repaired_utf8(stdout)),
{
}

/// The token is the first of the two variables that is set and not empty, whole.
pub proof fn law_token(first: Option<Seq<char>>, second: Option<Seq<char>>, token: Seq<char>)
    requires
        token.len() > 0,
    ensures
        first == Some(token) ==> first_set(first, second) == Some(token),
        (first is None || first->0.len() == 0) && second == Some(token) ==> first_set(first, second)
            == Some(token),
        (first is None || first->0.len() == 0) && (second is None || second->0.len() == 0)
            ==> first_set(first, second) is None,
{
}

// Finding the program
/// A path is found where it exists, as it is; a command finds what it answers, where it succeeds
/// and answers anything; and nothing else is a find.
pub proof fn law_finds(
    path: Seq<char>,
    program: Seq<char>,
    args: Seq<Seq<char>>,
    success: bool,
    stdout: Vec<u8>,
)
    ensures
        found(ProbeView::Path(path), Finding::Exists(true)) == Some(path),
        found(ProbeView::Path(path), Finding::Exists(false)) is None,
        success && command_answer(true, stdout@).len() > 0 ==> found(
            ProbeView::Command { program, args },
            Finding::Output { success, stdout },
        ) == Some(command_answer(true, stdout@)),
        !success || command_answer(true, stdout@).len() == 0 ==> found(
            ProbeView::Command { program, args },
            Finding::Output { success, stdout },
        ) is None,
{
}

/// A path that the environment names is tried first, before all that is tried anyway; one that is
/// empty is as good as none.
pub proof fn law_named_path_is_tried_first(path: Seq<char>, home: Seq<char>)
    ensures
        path.len() > 0 ==> agent_probes(Some(path), home) == seq![ProbeView::Path(path)]
            + agent_probes(None, home),
        path.len() == 0 ==> agent_probes(Some(path), home) == agent_probes(None, home),
{
    if path.len() > 0 {
        assert(agent_probes(Some(path), home) =~= seq![ProbeView::Path(path)] + agent_probes(
            None,
            home,
        ));
    }
}

/// The user's own programs are tried last, after all that is tried anyway.
pub proof fn law_own_programs_are_tried_last(named: Option<Seq<char>>, home: Seq<char>)
    requires
        home.len() > 0,
    ensures
        agent_probes(named, home) == agent_probes(named, seq![]).push(
            ProbeView::Path(home + "/.local/bin/agent"@),
        ),
{
    assert(agent_probes(named, home) =~= agent_probes(named, seq![]).push(
        ProbeView::Path(home + "/.local/bin/agent"@),
    ));
}

/// What is tried anyway: the shell, `which`, and the usual places, in this order.
pub proof fn law_usual_places()
    ensures
        agent_probes(None, seq![]) == seq![
            ProbeView::Command { program: "sh"@, args: seq!["-c"@, "command -v agent"@] },
            ProbeView::Command { program: "which"@, args: seq!["agent"@] },
            ProbeView::Path("/usr/local/bin/agent"@),
            ProbeView::Path("/opt/homebrew/bin/agent"@),
            ProbeView::Path("/usr/bin/agent"@),
        ],
{
    assert(agent_probes(None, seq![]) =~= seq![
        ProbeView::Command { program: "sh"@, args: seq!["-c"@, "command -v agent"@] },
        ProbeView::Command { program: "which"@, args: seq!["agent"@] },
        ProbeView::Path("/usr/local/bin/agent"@),
        ProbeView::Path("/opt/homebrew/bin/agent"@),
        ProbeView::Path("/usr/bin/agent"@),
    ]);
}

// Starting
/// The agent is asked for the model of the request, whole, and a session that is resumed is named
/// last; all the other arguments are the same for every model and every session.
pub proof fn law_arguments(model: Seq<char>, other: Seq<char>, chat_id: Seq<char>)
    ensures
        agent_args(model, None)[5] == "--model"@,
        agent_args(model, None)[6] == model,
        agent_args(model, None) == agent_args(other, None).update(6, model),
        agent_args(model, Some(chat_id)) == agent_args(model, None).push("--resume"@).push(chat_id),
        agent_args(model, None).len() == 8,
{
    assert(agent_args(model, None) =~= agent_args(other, None).update(6, model));
    assert(agent_args(model, Some(chat_id)) =~= agent_args(model, None).push("--resume"@).push(
        chat_id,
    ));
}

/// The agent's arguments that are the same for all: it prints, approves its own tool calls,
/// streams its events piece by piece, and trusts its directory.
pub proof fn law_constant_arguments(model: Seq<char>)
    ensures
        agent_args(model, None).take(5) == seq![
            "--print"@,
            "--force"@,
            "--output-format"@,
            "stream-json"@,
            "--stream-partial-output"@,
        ],
        agent_args(model, None)[7] == "--trust"@,
{
    assert(agent_args(model, None).take(5) =~= seq![
        "--print"@,
        "--force"@,
        "--output-format"@,
        "stream-json"@,
        "--stream-partial-output"@,
    ]);
}

/// The client is pointed to the port of the proxy, and is told the same else at every port.
pub proof fn law_client_is_pointed_to_the_port(port: u16, other: u16)
    ensures
        client_environment(port)[0] == ("ANTHROPIC_BASE_URL"@, "http://127.0.0.1:"@ + decimal(
            port as int,
        )),
        client_environment(port) == client_environment(other).update(
            0,
            client_environment(port)[0],
        ),
        client_environment(port).len() == 5,
{
    assert(client_environment(port) =~= client_environment(other).update(
        0,
        client_environment(port)[0],
    ));
}

/// Every process has a directory of its own, named after it.
pub proof fn law_sandboxes_differ(a: u32, b: u32)
    ensures
        sandbox_dir(a) == "cursor-bridge-"@ + decimal(a as int),
        a != b ==> sandbox_dir(a) != sandbox_dir(b),
{
    if a != b {
        crate::text_laws::law_decimals_differ(a as int, b as int);
        let head = "cursor-bridge-"@;
        assert(sandbox_dir(a).skip(head.len() as int) =~= decimal(a as int));
        assert(sandbox_dir(b).skip(head.len() as int) =~= decimal(b as int));
    }
}

/// Help is asked for by either word, wherever it stands, and by nothing else.
pub proof fn law_help(args: Seq<Seq<char>>, i: int)
    ensures
        0 <= i < args.len() && (args[i] == "--help"@ || args[i] == "-h"@) ==> asks_for_help(args),
        (forall|j: int|
            0 <= j < args.len() ==> #[trigger] args[j] != "--help"@ && args[j] != "-h"@)
            ==> !asks_for_help(args),
{
    if 0 <= i < args.len() {
        assert(args.contains(args[i]));
    }
}

// The proxy
/// The proxy serves exactly the connections that come while it is not shut down, and stops when
/// it is shut down or can accept no more.
pub proof fn law_proxy(accepted: Accepted)
    ensures
        next_step(true, accepted) == ProxyStep::Stop,
        next_step(false, Accepted::Connection) == ProxyStep::Serve,
        next_step(false, Accepted::NoneYet) == ProxyStep::Wait,
        next_step(false, Accepted::Failed) == ProxyStep::Stop,
{
}

} // verus!
